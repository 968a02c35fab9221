use crate::annotation::ProtoAnnotation;
use crate::text::str_eq;
use std::collections::HashMap;
use vstd::prelude::*;

verus! {

broadcast use vstd::std_specs::hash::group_hash_axioms;

/// One field declaration inside a definition, for instance
/// `optional string name = 1;`.
///
/// `annotation` is the field's multiplicity qualifier, `attribute_name` the
/// declared name and `attribute_type` the name of a scalar type or of
/// another definition.  The numeric tag is not part of the record: it is the
/// key under which the enclosing [`Proto`] stores it.  No field of this
/// record is validated here; a loader is expected to fill in a non-empty
/// name and type before storing the record.
#[derive(Debug)]
pub struct ProtoAttribute {
    pub annotation: ProtoAnnotation,
    pub attribute_name: String,
    pub attribute_type: String,
}

impl ProtoAttribute {
    /// A zero-value attribute: `Optional` annotation, empty name, empty
    /// type.  It serves as a builder seed whose fields a loader fills in.
    pub fn new() -> (r: Self)
        ensures
            r.annotation == ProtoAnnotation::Optional,
            r.attribute_name@ == Seq::<char>::empty(),
            r.attribute_type@ == Seq::<char>::empty(),
    {
        ProtoAttribute {
            annotation: ProtoAnnotation::Optional,
            attribute_name: String::new(),
            attribute_type: String::new(),
        }
    }
}

impl Clone for ProtoAttribute {
    /// A clone is equal to the original, field for field.
    fn clone(&self) -> (r: Self)
        ensures
            r == *self,
    {
        ProtoAttribute {
            annotation: self.annotation,
            attribute_name: self.attribute_name.clone(),
            attribute_type: self.attribute_type.clone(),
        }
    }
}

impl core::default::Default for ProtoAttribute {
    /// A default-constructed attribute is the zero value of
    /// [`ProtoAttribute::new`].
    fn default() -> (r: Self)
        ensures
            r.annotation == ProtoAnnotation::Optional,
            r.attribute_name@ == Seq::<char>::empty(),
            r.attribute_type@ == Seq::<char>::empty(),
    {
        ProtoAttribute::new()
    }
}

/// What a definition is: a `message`, a `oneof` group, or an `enum`.
#[derive(Clone, Copy, Debug, PartialEq, Eq, Structural)]
pub enum KindOf {
    Message,
    OneOf,
    Enum,
}

impl core::default::Default for KindOf {
    /// A default-constructed kind is `Message`.
    fn default() -> (r: Self)
        ensures
            r == KindOf::Message,
    {
        KindOf::Message
    }
}

/// The mapping that a sequence of name/descriptor entries denotes: a later
/// entry for a name overrides an earlier one.
pub open spec fn content_map(s: Seq<(String, Proto)>) -> Map<Seq<char>, Proto>
    decreases s.len(),
{
    if s.len() == 0 {
        Map::empty()
    } else {
        content_map(s.drop_last()).insert(s.last().0@, s.last().1)
    }
}

/// Whether no two entries of `s` carry the same name.
pub open spec fn distinct_names(s: Seq<(String, Proto)>) -> bool {
    forall|i: int, j: int| 0 <= i < j < s.len() ==> s[i].0@ != s[j].0@
}

/// One definition of a schema: a `message`, `oneof` or `enum` node.
///
/// A node owns a tag-indexed mapping of its attributes and a name-indexed
/// mapping of the definitions nested syntactically inside it, so the whole
/// loaded schema forms a strict tree.  Inserting under a tag or name that is
/// already present silently overwrites the earlier entry; a loader that must
/// detect duplicates has to check before inserting.
#[derive(Debug)]
pub struct Proto {
    kind_of: KindOf,
    attributes: HashMap<i32, ProtoAttribute>,
    contents: Vec<(String, Proto)>,
}

impl Proto {
    #[verifier::type_invariant]
    spec fn wf(self) -> bool {
        distinct_names(self.contents@)
    }

    /// The kind of this definition.
    pub closed spec fn kind(self) -> KindOf {
        self.kind_of
    }

    /// The attributes of this definition, as a mapping from numeric tag to
    /// attribute record.
    pub closed spec fn attrs(self) -> Map<i32, ProtoAttribute> {
        self.attributes@
    }

    /// The definitions nested inside this one, as a mapping from name to
    /// child node.
    pub closed spec fn nested(self) -> Map<Seq<char>, Proto> {
        content_map(self.contents@)
    }

    /// An empty node of the given kind: no attributes, no nested
    /// definitions.
    pub fn new(kind_of: KindOf) -> (r: Self)
        ensures
            r.kind() == kind_of,
            r.attrs() == Map::<i32, ProtoAttribute>::empty(),
            r.nested() == Map::<Seq<char>, Proto>::empty(),
    {
        Proto { kind_of, attributes: HashMap::new(), contents: Vec::new() }
    }

    /// The kind of this definition.
    pub fn kind_of(&self) -> (k: KindOf)
        ensures
            k == self.kind(),
    {
        self.kind_of
    }

    /// Stores `attribute` under `tag`, silently overwriting any attribute
    /// previously stored there; the kind and the nested definitions are
    /// untouched.
    pub fn insert_attribute(&mut self, tag: i32, attribute: ProtoAttribute)
        ensures
            final(self).kind() == old(self).kind(),
            final(self).attrs() == old(self).attrs().insert(tag, attribute),
            final(self).nested() == old(self).nested(),
    {
        proof {
            use_type_invariant(&*self);
        }
        let mut m: HashMap<i32, ProtoAttribute> = HashMap::new();
        core::mem::swap(&mut m, &mut self.attributes);
        m.insert(tag, attribute);
        self.attributes = m;
    }

    /// Retrieves the attribute stored under `tag`; an absent result means
    /// that this definition declares no such tag.
    pub fn lookup_attribute(&self, tag: i32) -> (r: Option<&ProtoAttribute>)
        ensures
            match r {
                Some(a) => self.attrs().contains_key(tag) && *a == self.attrs()[tag],
                None => !self.attrs().contains_key(tag),
            },
    {
        self.attributes.get(&tag)
    }

    /// Stores the nested definition `descriptor` under `name`, silently
    /// overwriting any definition previously stored there; the kind and the
    /// attributes are untouched.
    pub fn insert_content(&mut self, name: String, descriptor: Proto)
        ensures
            final(self).kind() == old(self).kind(),
            final(self).attrs() == old(self).attrs(),
            final(self).nested() == old(self).nested().insert(name@, descriptor),
    {
        proof {
            use_type_invariant(&*self);
        }
        let mut c: Vec<(String, Proto)> = Vec::new();
        core::mem::swap(&mut c, &mut self.contents);
        let ghost s0 = c@;
        let n = c.len();
        let mut i: usize = 0;
        while i < n
            invariant
                n == s0.len(),
                i <= n,
                c@ == s0,
                s0 == old(self).contents@,
                self.kind_of == old(self).kind_of,
                self.attributes@ == old(self).attributes@,
                distinct_names(s0),
                forall|j: int| 0 <= j < i ==> s0[j].0@ != name@,
            decreases n - i,
        {
            if str_eq(c[i].0.as_str(), name.as_str()) {
                proof {
                    lemma_content_map_update(s0, i as int, (name, descriptor));
                    let t = s0.update(i as int, (name, descriptor));
                    assert(forall|x: int| 0 <= x < t.len() ==> t[x].0@ == s0[x].0@);
                }
                c[i] = (name, descriptor);
                self.contents = c;
                return ;
            }
            i += 1;
        }
        proof {
            let s1 = s0.push((name, descriptor));
            assert(s1.drop_last() =~= s0);
            assert(forall|x: int| 0 <= x < s0.len() ==> s1[x] == s0[x]);
        }
        c.push((name, descriptor));
        self.contents = c;
    }

    /// Retrieves the nested definition stored under `name`; an absent result
    /// means that this definition nests no such name.
    pub fn lookup_content(&self, name: &str) -> (r: Option<&Proto>)
        ensures
            match r {
                Some(d) => self.nested().contains_key(name@) && *d == self.nested()[name@],
                None => !self.nested().contains_key(name@),
            },
    {
        proof {
            use_type_invariant(&*self);
        }
        let n = self.contents.len();
        let mut i: usize = 0;
        while i < n
            invariant
                n == self.contents@.len(),
                i <= n,
                distinct_names(self.contents@),
                forall|j: int| 0 <= j < i ==> self.contents@[j].0@ != name@,
            decreases n - i,
        {
            if str_eq(self.contents[i].0.as_str(), name) {
                proof {
                    lemma_content_map_index(self.contents@, i as int);
                }
                return Some(&self.contents[i].1);
            }
            i += 1;
        }
        proof {
            lemma_content_map_absent(self.contents@, name@);
        }
        None
    }
}

impl core::default::Default for Proto {
    /// A default-constructed node is an empty `Message`.
    fn default() -> (r: Self)
        ensures
            r.kind() == KindOf::Message,
            r.attrs() == Map::<i32, ProtoAttribute>::empty(),
            r.nested() == Map::<Seq<char>, Proto>::empty(),
    {
        Proto::new(KindOf::Message)
    }
}

/// A freshly constructed descriptor answers every lookup with an absent
/// result: a node whose attribute and nested mappings are empty contains no
/// tag and no name.
pub proof fn lemma_fresh_descriptor_lookups_absent(p: Proto, tag: i32, name: Seq<char>)
    requires
        p.attrs() == Map::<i32, ProtoAttribute>::empty(),
        p.nested() == Map::<Seq<char>, Proto>::empty(),
    ensures
        !p.attrs().contains_key(tag),
        !p.nested().contains_key(name),
{
}

/// Last write wins on a tag: after storing `a` under `tag`, a lookup of
/// `tag` yields `a`; after then storing `b` under the same `tag`, it yields
/// `b`; and no other tag is affected by either store.
pub proof fn lemma_insert_attribute_last_write_wins(
    m: Map<i32, ProtoAttribute>,
    tag: i32,
    a: ProtoAttribute,
    b: ProtoAttribute,
    other: i32,
)
    requires
        other != tag,
    ensures
        m.insert(tag, a).contains_key(tag),
        m.insert(tag, a)[tag] == a,
        m.insert(tag, a).insert(tag, b).contains_key(tag),
        m.insert(tag, a).insert(tag, b)[tag] == b,
        m.insert(tag, a).insert(tag, b).contains_key(other) == m.contains_key(other),
        m.contains_key(other) ==> m.insert(tag, a).insert(tag, b)[other] == m[other],
{
}

/// A nested definition is retrieved exactly as it was inserted: the child
/// stored under `name` is the inserted descriptor itself, so its kind, its
/// attribute mapping and its nested mapping match the inserted one's.
pub proof fn lemma_insert_content_retrieves_inserted(
    m: Map<Seq<char>, Proto>,
    name: Seq<char>,
    d: Proto,
)
    ensures
        m.insert(name, d).contains_key(name),
        m.insert(name, d)[name] == d,
        m.insert(name, d)[name].kind() == d.kind(),
        m.insert(name, d)[name].attrs() == d.attrs(),
        m.insert(name, d)[name].nested() == d.nested(),
{
}

/// A name that occurs in no entry of `s` is absent from the mapping that `s`
/// denotes.
proof fn lemma_content_map_absent(s: Seq<(String, Proto)>, k: Seq<char>)
    requires
        forall|j: int| 0 <= j < s.len() ==> s[j].0@ != k,
    ensures
        !content_map(s).contains_key(k),
    decreases s.len(),
{
    if s.len() > 0 {
        assert(forall|j: int| 0 <= j < s.len() - 1 ==> s.drop_last()[j] == s[j]);
        lemma_content_map_absent(s.drop_last(), k);
    }
}

/// With distinct names, the mapping that `s` denotes sends the name of the
/// entry at `i` to that entry's descriptor.
proof fn lemma_content_map_index(s: Seq<(String, Proto)>, i: int)
    requires
        distinct_names(s),
        0 <= i < s.len(),
    ensures
        content_map(s).contains_key(s[i].0@),
        content_map(s)[s[i].0@] == s[i].1,
    decreases s.len(),
{
    if i < s.len() - 1 {
        assert(forall|j: int| 0 <= j < s.len() - 1 ==> s.drop_last()[j] == s[j]);
        lemma_content_map_index(s.drop_last(), i);
        assert(s.last().0@ != s[i].0@);
    }
}

/// With distinct names, replacing the entry at `i` by one carrying the same
/// name amounts to inserting into the denoted mapping.
proof fn lemma_content_map_update(s: Seq<(String, Proto)>, i: int, p: (String, Proto))
    requires
        distinct_names(s),
        0 <= i < s.len(),
        p.0@ == s[i].0@,
    ensures
        content_map(s.update(i, p)) == content_map(s).insert(p.0@, p.1),
    decreases s.len(),
{
    let t = s.update(i, p);
    if i == s.len() - 1 {
        assert(t.drop_last() =~= s.drop_last());
        assert(t.last() == p);
        assert(content_map(s.drop_last()).insert(p.0@, p.1) =~= content_map(
            s.drop_last(),
        ).insert(s.last().0@, s.last().1).insert(p.0@, p.1));
    } else {
        assert(forall|j: int| 0 <= j < s.len() - 1 ==> s.drop_last()[j] == s[j]);
        lemma_content_map_update(s.drop_last(), i, p);
        assert(t.drop_last() =~= s.drop_last().update(i, p));
        assert(t.last() == s.last());
        assert(s.last().0@ != p.0@);
        assert(content_map(s.drop_last()).insert(p.0@, p.1).insert(s.last().0@, s.last().1) =~= content_map(
            s.drop_last(),
        ).insert(s.last().0@, s.last().1).insert(p.0@, p.1));
    }
}

} // verus!
