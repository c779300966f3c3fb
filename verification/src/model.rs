use vstd::prelude::*;

verus! {

/// One declared environment variable of a container. A variable whose
/// value is sourced indirectly (from a secret or another resource)
/// carries no literal value here.
#[derive(Debug)]
pub struct EnvVar {
    pub name: String,
    pub value: Option<String>,
}

/// One container of a pod specification.
#[derive(Debug)]
pub struct Container {
    pub name: String,
    pub image: Option<String>,
    pub command: Option<Vec<String>>,
    pub args: Option<Vec<String>>,
    pub env: Option<Vec<EnvVar>>,
}

/// The container set a workload runs.
#[derive(Debug)]
pub struct PodSpec {
    pub containers: Vec<Container>,
}

/// The embedded pod definition shared by the workload kinds. A template
/// may legitimately omit its specification at parse time; conversion
/// treats that as an error.
#[derive(Debug)]
pub struct PodTemplateSpec {
    pub spec: Option<PodSpec>,
}

/// What a Deployment's specification says, as far as conversion reads it.
#[derive(Debug)]
pub struct DeploymentSpec {
    pub template: PodTemplateSpec,
}

/// What a Job's specification says, as far as conversion reads it.
#[derive(Debug)]
pub struct JobSpec {
    pub template: PodTemplateSpec,
}

/// The closed set of recognized workload kinds. Documents of any other
/// kind never produce an `Object`.
#[derive(Debug)]
pub enum ObjectKind {
    Deployment(DeploymentSpec),
    Job(JobSpec),
}

/// One typed workload object: its declared metadata name and its kind.
#[derive(Debug)]
pub struct Object {
    pub name: String,
    pub kind: ObjectKind,
}

pub struct EnvVarV {
    pub name: Seq<char>,
    pub value: Option<Seq<char>>,
}

pub struct ContainerV {
    pub name: Seq<char>,
    pub image: Option<Seq<char>>,
    pub command: Option<Seq<Seq<char>>>,
    pub args: Option<Seq<Seq<char>>>,
    pub env: Option<Seq<EnvVarV>>,
}

pub struct PodSpecV {
    pub containers: Seq<ContainerV>,
}

pub struct PodTemplateSpecV {
    pub spec: Option<PodSpecV>,
}

pub enum ObjectKindV {
    Deployment(PodTemplateSpecV),
    Job(PodTemplateSpecV),
}

pub struct ObjectV {
    pub name: Seq<char>,
    pub kind: ObjectKindV,
}

impl DeepView for EnvVar {
    type V = EnvVarV;

    open spec fn deep_view(&self) -> EnvVarV {
        EnvVarV { name: self.name.deep_view(), value: self.value.deep_view() }
    }
}

impl DeepView for Container {
    type V = ContainerV;

    open spec fn deep_view(&self) -> ContainerV {
        ContainerV {
            name: self.name.deep_view(),
            image: self.image.deep_view(),
            command: self.command.deep_view(),
            args: self.args.deep_view(),
            env: self.env.deep_view(),
        }
    }
}

impl DeepView for PodSpec {
    type V = PodSpecV;

    open spec fn deep_view(&self) -> PodSpecV {
        PodSpecV { containers: self.containers.deep_view() }
    }
}

impl DeepView for PodTemplateSpec {
    type V = PodTemplateSpecV;

    open spec fn deep_view(&self) -> PodTemplateSpecV {
        PodTemplateSpecV { spec: self.spec.deep_view() }
    }
}

impl DeepView for ObjectKind {
    type V = ObjectKindV;

    open spec fn deep_view(&self) -> ObjectKindV {
        match self {
            ObjectKind::Deployment(d) => ObjectKindV::Deployment(d.template.deep_view()),
            ObjectKind::Job(j) => ObjectKindV::Job(j.template.deep_view()),
        }
    }
}

impl DeepView for Object {
    type V = ObjectV;

    open spec fn deep_view(&self) -> ObjectV {
        ObjectV { name: self.name.deep_view(), kind: self.kind.deep_view() }
    }
}

} // verus!
