use vstd::prelude::*;

verus! {

/// The Compose schema revision the output declares. The single variant
/// stands for the fixed literal `3.8`.
pub enum Version {
    V2,
}

/// One exposed port, written to the output in its decimal string form.
pub struct Port(pub u16);

/// One named container definition of the output document.
pub struct Service {
    /// Docker image; always present.
    pub image: String,
    /// Exposed ports; empty means the key is omitted from the output.
    pub ports: Vec<Port>,
    /// Services this one depends on; empty means omitted.
    pub depends_on: Vec<String>,
    /// The container's command; absent means omitted.
    pub command: Option<Vec<String>>,
    /// The container's entrypoint; absent means omitted.
    pub entrypoint: Option<Vec<String>>,
    /// Environment variables, in insertion order; empty means omitted.
    pub environment: Vec<(String, String)>,
}

/// The whole output document: a fixed version and the services, an
/// insertion-ordered mapping from unique service name to definition.
pub struct Compose {
    pub version: Version,
    pub services: Vec<(String, Service)>,
}

pub struct ServiceV {
    pub image: Seq<char>,
    pub ports: Seq<u16>,
    pub depends_on: Seq<Seq<char>>,
    pub command: Option<Seq<Seq<char>>>,
    pub entrypoint: Option<Seq<Seq<char>>>,
    pub environment: Seq<(Seq<char>, Seq<char>)>,
}

impl DeepView for Port {
    type V = u16;

    open spec fn deep_view(&self) -> u16 {
        self.0
    }
}

impl DeepView for Version {
    type V = Version;

    open spec fn deep_view(&self) -> Version {
        *self
    }
}

impl DeepView for Service {
    type V = ServiceV;

    open spec fn deep_view(&self) -> ServiceV {
        ServiceV {
            image: self.image.deep_view(),
            ports: self.ports.deep_view(),
            depends_on: self.depends_on.deep_view(),
            command: self.command.deep_view(),
            entrypoint: self.entrypoint.deep_view(),
            environment: self.environment.deep_view(),
        }
    }
}

/// The mathematical value of the services mapping: name/definition
/// pairs, in insertion order.
pub open spec fn services_val(c: Compose) -> Seq<(Seq<char>, ServiceV)> {
    c.services.deep_view()
}

/// Removal of a key from an ordered mapping: the first entry under
/// that key leaves, everything else keeps its place.
pub open spec fn map_remove<V>(m: Seq<(Seq<char>, V)>, k: Seq<char>) -> Seq<(Seq<char>, V)>
    decreases m.len(),
{
    if m.len() == 0 {
        m
    } else if m[0].0 == k {
        m.drop_first()
    } else {
        seq![m[0]] + map_remove(m.drop_first(), k)
    }
}

/// Insertion into an ordered mapping: the key's old entry, if any,
/// leaves its place, and the new pair goes to the back. A replaced
/// entry therefore moves to the end of the order.
pub open spec fn map_put<V>(m: Seq<(Seq<char>, V)>, k: Seq<char>, v: V) -> Seq<(Seq<char>, V)> {
    map_remove(m, k).push((k, v))
}

pub proof fn lemma_map_remove_found<V>(m: Seq<(Seq<char>, V)>, k: Seq<char>, i: int)
    requires
        0 <= i < m.len(),
        m[i].0 == k,
        forall|j: int| 0 <= j < i ==> (#[trigger] m[j]).0 != k,
    ensures
        map_remove(m, k) == m.remove(i),
    decreases i,
{
    if i == 0 {
        assert(m.drop_first() =~= m.remove(0));
    } else {
        assert(forall|j: int|
            0 <= j < i - 1 ==> (#[trigger] m.drop_first()[j]) == m[j + 1]);
        lemma_map_remove_found(m.drop_first(), k, i - 1);
        assert(seq![m[0]] + m.drop_first().remove(i - 1) =~= m.remove(i));
    }
}

pub proof fn lemma_map_remove_missing<V>(m: Seq<(Seq<char>, V)>, k: Seq<char>)
    requires
        forall|j: int| 0 <= j < m.len() ==> (#[trigger] m[j]).0 != k,
    ensures
        map_remove(m, k) == m,
    decreases m.len(),
{
    if m.len() > 0 {
        assert(forall|j: int|
            0 <= j < m.drop_first().len() ==> (#[trigger] m.drop_first()[j]) == m[j + 1]);
        lemma_map_remove_missing(m.drop_first(), k);
        assert(seq![m[0]] + m.drop_first() =~= m);
    }
}

/// Every key occurs at most once.
pub open spec fn keys_unique<V>(m: Seq<(Seq<char>, V)>) -> bool {
    forall|i: int, j: int|
        0 <= i < j < m.len() ==> (#[trigger] m[i]).0 != (#[trigger] m[j]).0
}

/// Insertion keeps the keys unique.
pub proof fn lemma_map_put_keys_unique<V>(m: Seq<(Seq<char>, V)>, k: Seq<char>, v: V)
    requires
        keys_unique(m),
    ensures
        keys_unique(map_put(m, k, v)),
{
    if exists|i: int| 0 <= i < m.len() && (#[trigger] m[i]).0 == k {
        lemma_first_key_exists(m, k);
        let first = choose|i: int|
            0 <= i < m.len() && (#[trigger] m[i]).0 == k && (forall|j: int|
                0 <= j < i ==> (#[trigger] m[j]).0 != k);
        lemma_map_remove_found(m, k, first);
        let r = m.remove(first);
        assert(forall|j: int|
            0 <= j < r.len() ==> (#[trigger] r[j]) == (if j < first {
                m[j]
            } else {
                m[j + 1]
            }));
        assert(forall|j: int| 0 <= j < r.len() ==> (#[trigger] r[j]).0 != k);
        assert(keys_unique(r.push((k, v))));
    } else {
        assert(forall|j: int| 0 <= j < m.len() ==> (#[trigger] m[j]).0 != k);
        lemma_map_remove_missing(m, k);
        assert(keys_unique(m.push((k, v))));
    }
}

proof fn lemma_first_key_exists<V>(m: Seq<(Seq<char>, V)>, k: Seq<char>)
    requires
        exists|i: int| 0 <= i < m.len() && (#[trigger] m[i]).0 == k,
    ensures
        exists|i: int|
            0 <= i < m.len() && (#[trigger] m[i]).0 == k && (forall|j: int|
                0 <= j < i ==> (#[trigger] m[j]).0 != k),
    decreases m.len(),
{
    if m[0].0 == k {
        assert(0 <= 0 < m.len() && m[0].0 == k && (forall|j: int|
            0 <= j < 0 ==> (#[trigger] m[j]).0 != k));
    } else {
        let w = choose|i: int| 0 <= i < m.len() && (#[trigger] m[i]).0 == k;
        assert(m.drop_first()[w - 1].0 == k);
        lemma_first_key_exists(m.drop_first(), k);
        let f = choose|i: int|
            0 <= i < m.drop_first().len() && (#[trigger] m.drop_first()[i]).0 == k && (forall|
                j: int,
            | 0 <= j < i ==> (#[trigger] m.drop_first()[j]).0 != k);
        assert(m[f + 1].0 == k);
        assert(forall|j: int| 1 <= j < f + 1 ==> (#[trigger] m[j]).0 == m.drop_first()[j - 1].0);
        assert(forall|j: int| 0 <= j < f + 1 ==> (#[trigger] m[j]).0 != k);
    }
}

impl Compose {
    /// Inserts a service under a name. A colliding name has its
    /// definition silently replaced, and the replacement moves to the
    /// back of the order, as a fresh insertion would.
    pub fn upsert(&mut self, name: String, service: Service)
        ensures
            final(self).version == old(self).version,
            services_val(*final(self)) == map_put(
                services_val(*old(self)),
                name@,
                service.deep_view(),
            ),
            keys_unique(services_val(*old(self))) ==> keys_unique(services_val(*final(self))),
    {
        proof {
            if keys_unique(services_val(*self)) {
                lemma_map_put_keys_unique(services_val(*self), name@, service.deep_view());
            }
        }
        let ghost m = self.services.deep_view();
        let n = self.services.len();
        let mut idx: usize = 0;
        let mut found: bool = false;
        while idx < n && !found
            invariant
                n == self.services.len(),
                m == self.services.deep_view(),
                idx <= n,
                !found ==> forall|j: int| 0 <= j < idx ==> (#[trigger] m[j]).0 != name@,
                found ==> idx < n && m[idx as int].0 == name@ && (forall|j: int|
                    0 <= j < idx ==> (#[trigger] m[j]).0 != name@),
            decreases n - idx + (if found { 0int } else { 1int }),
        {
            let hit = self.services[idx].0 == name;
            proof {
                assert(m[idx as int] == self.services@[idx as int].deep_view());
            }
            if hit {
                found = true;
            } else {
                idx += 1;
            }
        }
        if found {
            proof {
                lemma_map_remove_found(m, name@, idx as int);
            }
            self.services.remove(idx);
            proof {
                assert(self.services.deep_view() =~= m.remove(idx as int));
            }
        } else {
            proof {
                lemma_map_remove_missing(m, name@);
            }
        }
        let ghost removed = self.services.deep_view();
        self.services.push((name, service));
        proof {
            assert(self.services.deep_view() =~= removed.push((name@, service.deep_view())));
        }
    }
}

impl Default for Compose {
    /// The empty output document: the fixed version and no services.
    fn default() -> (c: Compose)
        ensures
            c.version == Version::V2,
            services_val(c) == Seq::<(Seq<char>, ServiceV)>::empty(),
    {
        let c = Compose { version: Version::V2, services: Vec::new() };
        proof {
            assert(services_val(c) =~= Seq::<(Seq<char>, ServiceV)>::empty());
        }
        c
    }
}

} // verus!
