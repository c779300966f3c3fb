use vstd::prelude::*;

verus! {

broadcast use vstd::std_specs::vec::axiom_vec_index_decreases, vstd::seq::axiom_seq_index_decreases;

/// One YAML document as a tree of plain values: scalars, lists and
/// insertion-ordered dictionaries. Dictionaries keep the entries in the
/// order the source text gave them; floating-point scalars are carried
/// as their source text, never interpreted.
pub enum YamlNode {
    Null,
    Bool(bool),
    Int(i64),
    /// A float scalar, kept as its source text.
    Real(String),
    Str(String),
    List(Vec<YamlNode>),
    Dict(Vec<(YamlNode, YamlNode)>),
}

/// The mathematical value of a `YamlNode`.
pub enum YamlVal {
    Null,
    Bool(bool),
    Int(int),
    Real(Seq<char>),
    Str(Seq<char>),
    List(Seq<YamlVal>),
    Dict(Seq<(YamlVal, YamlVal)>),
}

pub open spec fn node_val(n: YamlNode) -> YamlVal
    decreases n,
{
    match n {
        YamlNode::Null => YamlVal::Null,
        YamlNode::Bool(b) => YamlVal::Bool(b),
        YamlNode::Int(i) => YamlVal::Int(i as int),
        YamlNode::Real(s) => YamlVal::Real(s@),
        YamlNode::Str(s) => YamlVal::Str(s@),
        YamlNode::List(v) => YamlVal::List(list_vals(v@)),
        YamlNode::Dict(v) => YamlVal::Dict(entry_vals(v@)),
    }
}

pub open spec fn list_vals(s: Seq<YamlNode>) -> Seq<YamlVal>
    decreases s,
{
    if s.len() == 0 {
        Seq::empty()
    } else {
        list_vals(s.drop_last()).push(node_val(s.last()))
    }
}

pub open spec fn entry_vals(s: Seq<(YamlNode, YamlNode)>) -> Seq<(YamlVal, YamlVal)>
    decreases s,
{
    if s.len() == 0 {
        Seq::empty()
    } else {
        entry_vals(s.drop_last()).push((node_val(s.last().0), node_val(s.last().1)))
    }
}

impl DeepView for YamlNode {
    type V = YamlVal;

    open spec fn deep_view(&self) -> YamlVal {
        node_val(*self)
    }
}

pub proof fn lemma_list_vals(s: Seq<YamlNode>)
    ensures
        list_vals(s).len() == s.len(),
        forall|i: int| 0 <= i < s.len() ==> list_vals(s)[i] == node_val(s[i]),
    decreases s.len(),
{
    if s.len() > 0 {
        lemma_list_vals(s.drop_last());
    }
}

pub proof fn lemma_entry_vals(s: Seq<(YamlNode, YamlNode)>)
    ensures
        entry_vals(s).len() == s.len(),
        forall|i: int|
            0 <= i < s.len() ==> entry_vals(s)[i] == (node_val(s[i].0), node_val(s[i].1)),
    decreases s.len(),
{
    if s.len() > 0 {
        lemma_entry_vals(s.drop_last());
    }
}

/// The value under a string key in a dictionary's entry sequence:
/// the first entry whose key is that string, if any.
pub open spec fn dict_get(entries: Seq<(YamlVal, YamlVal)>, key: Seq<char>) -> Option<YamlVal>
    decreases entries.len(),
{
    if entries.len() == 0 {
        None
    } else if entries[0].0 == YamlVal::Str(key) {
        Some(entries[0].1)
    } else {
        dict_get(entries.drop_first(), key)
    }
}

/// The value under a string key of a document, when the document is a
/// dictionary holding that key.
pub open spec fn val_get(d: YamlVal, key: Seq<char>) -> Option<YamlVal> {
    match d {
        YamlVal::Dict(entries) => dict_get(entries, key),
        _ => None,
    }
}

impl YamlNode {
    /// Looks a string key up in this node, which must be a dictionary.
    pub fn get<'a>(&'a self, key: &str) -> (r: Option<&'a YamlNode>)
        ensures
            match r {
                Some(n) => val_get(self.deep_view(), key@) == Some(n.deep_view()),
                None => val_get(self.deep_view(), key@) is None,
            },
    {
        match self {
            YamlNode::Dict(entries) => dict_entries_get(entries, key),
            _ => None,
        }
    }
}

/// Looks a string key up in a dictionary's entries, returning the value of
/// the first entry whose key is that string.
pub fn dict_entries_get<'a>(entries: &'a Vec<(YamlNode, YamlNode)>, key: &str) -> (r: Option<
    &'a YamlNode,
>)
    ensures
        match r {
            Some(n) => dict_get(entry_vals(entries@), key@) == Some(n.deep_view()),
            None => dict_get(entry_vals(entries@), key@) is None,
        },
{
    let key_string: String = key.to_owned();
    let ghost evs = entry_vals(entries@);
    proof {
        lemma_entry_vals(entries@);
        assert(evs.skip(0) =~= evs);
    }
    let n = entries.len();
    for i in 0..n
        invariant
            n == entries.len(),
            evs == entry_vals(entries@),
            evs.len() == entries@.len(),
            forall|j: int|
                0 <= j < entries@.len() ==> evs[j] == (
                node_val(entries@[j].0),
                node_val(entries@[j].1),
            ),
            key_string@ == key@,
            dict_get(evs, key@) == dict_get(evs.skip(i as int), key@),
    {
        let e = &entries[i];
        proof {
            assert(evs.skip(i as int)[0] == evs[i as int]);
        }
        let hit: bool = match &e.0 {
            YamlNode::Str(s) => *s == key_string,
            _ => false,
        };
        proof {
            assert(evs.skip(i as int).drop_first() =~= evs.skip(i as int + 1));
        }
        if hit {
            return Some(&e.1);
        }
    }
    proof {
        assert(evs.skip(n as int) =~= Seq::<(YamlVal, YamlVal)>::empty());
    }
    None
}

} // verus!
