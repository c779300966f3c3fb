use vstd::prelude::*;

use crate::classify::res_view;
use crate::classify::LoadError;
use crate::classify::LoadErrorV;
use crate::compose::services_val;
use crate::compose::Compose;
use crate::compose::ServiceV;
use crate::compose::Version;
use crate::convert::spec_convert;
use crate::convert::Converter;
use crate::convert::ConvertError;
use crate::convert::ConvertErrorV;
use crate::emit::spec_compose_yaml;
use crate::load::load;
use crate::load::spec_load;

verus! {

/// Why a whole run produced no output.
#[derive(Debug)]
pub enum RunError {
    Load(LoadError),
    Convert(ConvertError),
}

pub enum RunErrorV {
    Load(LoadErrorV),
    Convert(ConvertErrorV),
}

impl DeepView for RunError {
    type V = RunErrorV;

    open spec fn deep_view(&self) -> RunErrorV {
        match self {
            RunError::Load(e) => RunErrorV::Load(e.deep_view()),
            RunError::Convert(e) => RunErrorV::Convert(e.deep_view()),
        }
    }
}

/// The whole conversion, as a function of the input texts: load the
/// workload objects, convert them into an initially empty document,
/// and write that document as YAML text. Any failure aborts the run
/// before any output exists.
pub open spec fn spec_run(texts: Seq<Seq<char>>) -> Result<Seq<char>, RunErrorV> {
    match spec_load(texts) {
        Err(e) => Err(RunErrorV::Load(e)),
        Ok(objs) => {
            let sc = spec_convert(objs, Seq::<(Seq<char>, ServiceV)>::empty());
            match sc.0 {
                Err(e) => Err(RunErrorV::Convert(e)),
                Ok(_) => Ok(spec_compose_yaml(Version::V2, sc.1)),
            }
        },
    }
}

/// Runs the pipeline over the given file texts, in resolved order, and
/// returns the output document's text. The result is a function of the
/// texts alone: the same inputs give byte-identical output.
pub fn run(texts: &Vec<String>) -> (r: Result<String, RunError>)
    ensures
        res_view(r) == spec_run(texts.deep_view()),
{
    let objects = match load(texts) {
        Ok(o) => o,
        Err(e) => {
            return Err(RunError::Load(e));
        },
    };
    let mut out = Compose::default();
    let converter = Converter::new(&objects);
    match converter.convert(&mut out) {
        Ok(_) => {},
        Err(e) => {
            return Err(RunError::Convert(e));
        },
    }
    Ok(out.to_yaml())
}

} // verus!
