use vstd::prelude::*;
use vstd::string::StringExecFns;

use crate::compose::lemma_map_remove_found;
use crate::compose::lemma_map_remove_missing;
use crate::compose::map_put;
use crate::compose::services_val;
use crate::compose::Compose;
use crate::compose::Service;
use crate::compose::ServiceV;
use crate::model::ContainerV;
use crate::model::EnvVarV;
use crate::model::Object;
use crate::model::ObjectKind;
use crate::model::ObjectKindV;
use crate::model::ObjectV;
use crate::model::PodSpec;

verus! {

broadcast use vstd::std_specs::vec::vec_clone_deep_view_proof;

/// Why a workload object could not be converted to services.
#[derive(Debug)]
pub enum ConvertError {
    /// The workload's pod template has no specification at all.
    MissingPodSpec { workload: String },
    /// A container of the workload declares no image.
    MissingImage { workload: String, container: String },
}

pub enum ConvertErrorV {
    MissingPodSpec { workload: Seq<char> },
    MissingImage { workload: Seq<char>, container: Seq<char> },
}

impl DeepView for ConvertError {
    type V = ConvertErrorV;

    open spec fn deep_view(&self) -> ConvertErrorV {
        match self {
            ConvertError::MissingPodSpec { workload } => ConvertErrorV::MissingPodSpec {
                workload: workload@,
            },
            ConvertError::MissingImage { workload, container } => ConvertErrorV::MissingImage {
                workload: workload@,
                container: container@,
            },
        }
    }
}

/// The environment mapping a container's declared variables produce:
/// the variables in declaration order, keeping only those with a
/// literal value; a repeated name takes the later value and moves to
/// the back of the order, as a fresh insertion would.
pub open spec fn spec_env_entries(vars: Seq<EnvVarV>) -> Seq<(Seq<char>, Seq<char>)>
    decreases vars.len(),
{
    if vars.len() == 0 {
        Seq::empty()
    } else {
        let prev = spec_env_entries(vars.drop_last());
        match vars.last().value {
            Some(v) => map_put(prev, vars.last().name, v),
            None => prev,
        }
    }
}

/// The name a container's service gets: the workload's own name, or
/// `<workload>-<container>` where the pod runs several containers.
pub open spec fn spec_service_name(workload: Seq<char>, container: Seq<char>, multi: bool) -> Seq<
    char,
> {
    if multi {
        workload + "-"@ + container
    } else {
        workload
    }
}

/// The service one container maps to: its required image; the input
/// `command` becomes the output entrypoint and the input `args` the
/// output command; the environment keeps literal values only; ports and
/// dependencies stay empty. A container without an image maps to
/// nothing.
pub open spec fn spec_service_of(c: ContainerV) -> Option<ServiceV> {
    match c.image {
        Some(img) => Some(
            ServiceV {
                image: img,
                ports: Seq::empty(),
                depends_on: Seq::empty(),
                command: c.args,
                entrypoint: c.command,
                environment: spec_env_entries(
                    match c.env {
                        Some(e) => e,
                        None => Seq::empty(),
                    },
                ),
            },
        ),
        None => None,
    }
}

/// Folds a pod's containers, in order, into the services mapping. The
/// first container without an image stops the fold with an error and
/// the services inserted so far.
pub open spec fn spec_convert_containers(
    acc: Seq<(Seq<char>, ServiceV)>,
    workload: Seq<char>,
    cs: Seq<ContainerV>,
    multi: bool,
) -> (Result<(), ConvertErrorV>, Seq<(Seq<char>, ServiceV)>)
    decreases cs.len(),
{
    if cs.len() == 0 {
        (Ok(()), acc)
    } else {
        let prev = spec_convert_containers(acc, workload, cs.drop_last(), multi);
        if prev.0 is Err {
            prev
        } else {
            let c = cs.last();
            match spec_service_of(c) {
                None => (
                    Err(ConvertErrorV::MissingImage { workload, container: c.name }),
                    prev.1,
                ),
                Some(svc) => (
                    Ok(()),
                    map_put(prev.1, spec_service_name(workload, c.name, multi), svc),
                ),
            }
        }
    }
}

/// Converts one workload object: its pod template must carry a
/// specification, whose containers are folded into the mapping.
pub open spec fn spec_convert_object(acc: Seq<(Seq<char>, ServiceV)>, o: ObjectV) -> (
    Result<(), ConvertErrorV>,
    Seq<(Seq<char>, ServiceV)>,
) {
    let template = match o.kind {
        ObjectKindV::Deployment(t) => t,
        ObjectKindV::Job(t) => t,
    };
    match template.spec {
        None => (Err(ConvertErrorV::MissingPodSpec { workload: o.name }), acc),
        Some(p) => spec_convert_containers(acc, o.name, p.containers, p.containers.len() > 1),
    }
}

/// Folds the whole object sequence, in order, into the services
/// mapping; the first failing object stops the fold.
pub open spec fn spec_convert(objs: Seq<ObjectV>, acc: Seq<(Seq<char>, ServiceV)>) -> (
    Result<(), ConvertErrorV>,
    Seq<(Seq<char>, ServiceV)>,
)
    decreases objs.len(),
{
    if objs.len() == 0 {
        (Ok(()), acc)
    } else {
        let prev = spec_convert(objs.drop_last(), acc);
        if prev.0 is Err {
            prev
        } else {
            spec_convert_object(prev.1, objs.last())
        }
    }
}

pub(crate) proof fn lemma_convert_containers_prefix_err(
    acc: Seq<(Seq<char>, ServiceV)>,
    workload: Seq<char>,
    cs: Seq<ContainerV>,
    multi: bool,
    i: int,
)
    requires
        0 <= i < cs.len(),
        spec_convert_containers(acc, workload, cs.take(i), multi).0 is Ok,
        spec_service_of(cs[i]) is None,
    ensures
        spec_convert_containers(acc, workload, cs, multi) == (
            Err::<(), ConvertErrorV>(
                ConvertErrorV::MissingImage { workload, container: cs[i].name },
            ),
            spec_convert_containers(acc, workload, cs.take(i), multi).1,
        ),
    decreases cs.len(),
{
    if cs.len() == i + 1 {
        assert(cs.drop_last() =~= cs.take(i));
    } else {
        assert(cs.drop_last().take(i) =~= cs.take(i));
        assert(cs.drop_last()[i] == cs[i]);
        lemma_convert_containers_prefix_err(acc, workload, cs.drop_last(), multi, i);
    }
}

proof fn lemma_convert_prefix_err(objs: Seq<ObjectV>, acc: Seq<(Seq<char>, ServiceV)>, i: int)
    requires
        0 <= i < objs.len(),
        spec_convert(objs.take(i), acc).0 is Ok,
        spec_convert_object(spec_convert(objs.take(i), acc).1, objs[i]).0 is Err,
    ensures
        spec_convert(objs, acc) == spec_convert_object(
            spec_convert(objs.take(i), acc).1,
            objs[i],
        ),
    decreases objs.len(),
{
    if objs.len() == i + 1 {
        assert(objs.drop_last() =~= objs.take(i));
    } else {
        assert(objs.drop_last().take(i) =~= objs.take(i));
        assert(objs.drop_last()[i] == objs[i]);
        lemma_convert_prefix_err(objs.drop_last(), acc, i);
    }
}

/// Inserts into an environment mapping with the same semantics as the
/// services mapping: the name's old entry, if any, leaves its place,
/// and the new pair goes to the back.
fn env_put(env: &mut Vec<(String, String)>, name: String, value: String)
    ensures
        final(env).deep_view() == map_put(old(env).deep_view(), name@, value@),
{
    let ghost m = env.deep_view();
    let n = env.len();
    let mut idx: usize = 0;
    let mut found: bool = false;
    while idx < n && !found
        invariant
            n == env.len(),
            m == env.deep_view(),
            idx <= n,
            !found ==> forall|j: int| 0 <= j < idx ==> (#[trigger] m[j]).0 != name@,
            found ==> idx < n && m[idx as int].0 == name@ && (forall|j: int|
                0 <= j < idx ==> (#[trigger] m[j]).0 != name@),
        decreases n - idx + (if found { 0int } else { 1int }),
    {
        let hit = env[idx].0 == name;
        proof {
            assert(m[idx as int] == env@[idx as int].deep_view());
        }
        if hit {
            found = true;
        } else {
            idx += 1;
        }
    }
    if found {
        proof {
            lemma_map_remove_found(m, name@, idx as int);
        }
        env.remove(idx);
        proof {
            assert(env.deep_view() =~= m.remove(idx as int));
        }
    } else {
        proof {
            lemma_map_remove_missing(m, name@);
        }
    }
    let ghost removed = env.deep_view();
    env.push((name, value));
    proof {
        assert(env.deep_view() =~= removed.push((name@, value@)));
    }
}

/// Converts workload objects into services of a Compose document.
pub struct Converter<'a> {
    pub objects: &'a Vec<Object>,
}

impl<'a> Converter<'a> {
    pub fn new(objects: &'a Vec<Object>) -> (c: Self)
        ensures
            c.objects == objects,
    {
        Self { objects }
    }

    /// Converts one pod specification: each of its containers becomes a
    /// service, named after the workload, inserted in container order.
    fn process_pod_spec(out: &mut Compose, spec: &PodSpec, workload_name: &String) -> (r: Result<
        (),
        ConvertError,
    >)
        ensures
            final(out).version == old(out).version,
            ({
                let sc = spec_convert_containers(
                    services_val(*old(out)),
                    workload_name@,
                    spec.deep_view().containers,
                    spec.deep_view().containers.len() > 1,
                );
                services_val(*final(out)) == sc.1 && match r {
                    Ok(_) => sc.0 is Ok,
                    Err(e) => sc.0 == Err::<(), ConvertErrorV>(e.deep_view()),
                }
            }),
    {
        let ghost acc0 = services_val(*out);
        let ghost cs = spec.deep_view().containers;
        let multiple_containers = spec.containers.len() > 1;
        proof {
            assert(cs.take(0) =~= Seq::<ContainerV>::empty());
        }
        let n = spec.containers.len();
        for i in 0..n
            invariant
                n == spec.containers.len(),
                cs == spec.deep_view().containers,
                cs.len() == n,
                multiple_containers == (n > 1),
                final(out).version == old(out).version,
                spec_convert_containers(acc0, workload_name@, cs.take(i as int), multiple_containers)
                    == (Ok::<(), ConvertErrorV>(()), services_val(*out)),
                acc0 == services_val(*old(out)),
        {
            let container = &spec.containers[i];
            proof {
                assert(cs[i as int] == spec.containers@[i as int].deep_view());
                assert(cs.take(i as int + 1).drop_last() =~= cs.take(i as int));
                assert(cs.take(i as int + 1).last() == cs[i as int]);
            }
            let svc_name: String = if multiple_containers {
                let mut s = workload_name.clone();
                s.append("-");
                s.append(container.name.as_str());
                s
            } else {
                workload_name.clone()
            };
            let image: String = match &container.image {
                Some(img) => img.clone(),
                None => {
                    proof {
                        lemma_convert_containers_prefix_err(
                            acc0,
                            workload_name@,
                            cs,
                            multiple_containers,
                            i as int,
                        );
                    }
                    return Err(
                        ConvertError::MissingImage {
                            workload: workload_name.clone(),
                            container: container.name.clone(),
                        },
                    );
                },
            };
            let entrypoint: Option<Vec<String>> = match &container.command {
                Some(v) => Some(v.clone()),
                None => None,
            };
            let command: Option<Vec<String>> = match &container.args {
                Some(v) => Some(v.clone()),
                None => None,
            };
            let mut environment: Vec<(String, String)> = Vec::new();
            proof {
                assert(environment.deep_view() =~= Seq::<(Seq<char>, Seq<char>)>::empty());
            }
            let ghost vars = match cs[i as int].env {
                Some(e) => e,
                None => Seq::empty(),
            };
            proof {
                assert(vars.take(0) =~= Seq::<EnvVarV>::empty());
            }
            match &container.env {
                Some(env_list) => {
                    let m = env_list.len();
                    for k in 0..m
                        invariant
                            m == env_list.len(),
                            vars == env_list.deep_view(),
                            vars.len() == m,
                            environment.deep_view() == spec_env_entries(vars.take(k as int)),
                    {
                        proof {
                            assert(vars[k as int] == env_list@[k as int].deep_view());
                            assert(vars.take(k as int + 1).drop_last() =~= vars.take(k as int));
                            assert(vars.take(k as int + 1).last() == vars[k as int]);
                        }
                        let env_var = &env_list[k];
                        match &env_var.value {
                            Some(value) => {
                                env_put(&mut environment, env_var.name.clone(), value.clone());
                            },
                            None => {},
                        }
                    }
                    proof {
                        assert(vars.take(m as int) =~= vars);
                    }
                },
                None => {},
            }
            let svc = Service {
                image,
                ports: Vec::new(),
                depends_on: Vec::new(),
                command,
                entrypoint,
                environment,
            };
            proof {
                assert(svc.deep_view().ports =~= Seq::<u16>::empty());
                assert(svc.deep_view().depends_on =~= Seq::<Seq<char>>::empty());
                assert(svc.deep_view() == spec_service_of(cs[i as int])->Some_0);
                assert(svc_name@ == spec_service_name(
                    workload_name@,
                    cs[i as int].name,
                    multiple_containers,
                ));
            }
            out.upsert(svc_name, svc);
        }
        proof {
            assert(cs.take(n as int) =~= cs);
        }
        Ok(())
    }

    /// Converts the objects, in order, into the given document. The
    /// first failure stops the conversion, leaving the services
    /// inserted so far in place; the caller discards the document in
    /// that case.
    pub fn convert(self, out: &mut Compose) -> (r: Result<(), ConvertError>)
        ensures
            final(out).version == old(out).version,
            ({
                let sc = spec_convert(self.objects.deep_view(), services_val(*old(out)));
                services_val(*final(out)) == sc.1 && match r {
                    Ok(_) => sc.0 is Ok,
                    Err(e) => sc.0 == Err::<(), ConvertErrorV>(e.deep_view()),
                }
            }),
    {
        let ghost ov = self.objects.deep_view();
        let ghost acc0 = services_val(*out);
        proof {
            assert(ov.take(0) =~= Seq::<ObjectV>::empty());
        }
        let n = self.objects.len();
        for i in 0..n
            invariant
                n == self.objects.len(),
                ov == self.objects.deep_view(),
                ov.len() == n,
                final(out).version == old(out).version,
                spec_convert(ov.take(i as int), acc0) == (
                    Ok::<(), ConvertErrorV>(()),
                    services_val(*out),
                ),
                acc0 == services_val(*old(out)),
        {
            let object = &self.objects[i];
            proof {
                assert(ov[i as int] == self.objects@[i as int].deep_view());
                assert(ov.take(i as int + 1).drop_last() =~= ov.take(i as int));
                assert(ov.take(i as int + 1).last() == ov[i as int]);
            }
            let template = match &object.kind {
                ObjectKind::Deployment(d) => &d.template,
                ObjectKind::Job(j) => &j.template,
            };
            let pod_spec = match &template.spec {
                Some(p) => p,
                None => {
                    proof {
                        lemma_convert_prefix_err(ov, acc0, i as int);
                    }
                    return Err(
                        ConvertError::MissingPodSpec { workload: object.name.clone() },
                    );
                },
            };
            let r = Self::process_pod_spec(out, pod_spec, &object.name);
            match r {
                Ok(_) => {},
                Err(e) => {
                    proof {
                        lemma_convert_prefix_err(ov, acc0, i as int);
                    }
                    return Err(e);
                },
            }
        }
        proof {
            assert(ov.take(n as int) =~= ov);
        }
        Ok(())
    }
}

} // verus!
