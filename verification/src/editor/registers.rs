//! Registers: the unnamed register, named registers (`a`-`z`) and numbered
//! registers (`0`-`9`) that hold yanked and deleted nodes.

use vstd::prelude::*;
use crate::assoc::AssocMap;
use crate::document::node::{duplicate_nodes, nodes_model, opt_str_view, NodeModel, YamlNode};
use crate::text::{digit_value, lower_char, to_ascii_lowercase};

verus! {

broadcast use vstd::std_specs::vec::group_vec_axioms;

/// Model of register content.
pub struct ContentModel {
    pub nodes: Seq<NodeModel>,
    pub keys: Seq<Option<Seq<char>>>,
}

pub open spec fn empty_content() -> ContentModel {
    ContentModel { nodes: Seq::empty(), keys: Seq::empty() }
}

pub open spec fn keys_model(k: Seq<Option<String>>) -> Seq<Option<Seq<char>>> {
    Seq::new(k.len(), |i: int| opt_str_view(k[i]))
}

/// Content stored in a register: nodes, with the key of each node that was
/// a mapping entry.
#[derive(Debug, PartialEq)]
pub struct RegisterContent {
    pub nodes: Vec<YamlNode>,
    pub keys: Vec<Option<String>>,
}

impl View for RegisterContent {
    type V = ContentModel;

    open spec fn view(&self) -> ContentModel {
        ContentModel { nodes: nodes_model(self.nodes@), keys: keys_model(self.keys@) }
    }
}

fn duplicate_keys(k: &Vec<Option<String>>) -> (r: Vec<Option<String>>)
    ensures
        keys_model(r@) == keys_model(k@),
{
    let mut r: Vec<Option<String>> = Vec::new();
    let mut i: usize = 0;
    while i < k.len()
        invariant
            i <= k@.len(),
            r@.len() == i,
            forall|j: int| 0 <= j < i ==> opt_str_view(#[trigger] r@[j]) == opt_str_view(k@[j]),
        decreases k.len() - i,
    {
        let x = match &k[i] {
            Some(s) => Some(s.clone()),
            None => None,
        };
        r.push(x);
        i = i + 1;
    }
    assert(keys_model(r@) =~= keys_model(k@));
    r
}

impl RegisterContent {
    /// Content holding `nodes` with their `keys`.
    pub fn new(nodes: Vec<YamlNode>, keys: Vec<Option<String>>) -> (r: Self)
        ensures
            r.nodes == nodes,
            r.keys == keys,
    {
        RegisterContent { nodes, keys }
    }

    /// True when the register holds no node.
    pub fn is_empty(&self) -> (r: bool)
        ensures
            r == (self@.nodes.len() == 0),
    {
        self.nodes.len() == 0
    }

    /// A deep copy of the content.
    pub fn duplicate(&self) -> (r: Self)
        ensures
            r@ == self@,
    {
        RegisterContent { nodes: duplicate_nodes(&self.nodes), keys: duplicate_keys(&self.keys) }
    }
}

impl Clone for RegisterContent {
    fn clone(&self) -> (r: Self)
        ensures
            r@ == self@,
    {
        self.duplicate()
    }
}

/// Model of the register set.
pub struct RegisterSetModel {
    pub unnamed: ContentModel,
    pub named: Map<char, ContentModel>,
    pub numbered: Seq<ContentModel>,
}

/// All registers: unnamed, named (keyed by lower-case letter) and ten
/// numbered ones (`"0` holds the last yank, `"1`-`"9` the delete history).
pub struct RegisterSet {
    unnamed: RegisterContent,
    named: AssocMap<char, RegisterContent>,
    numbered: Vec<RegisterContent>,
}

impl View for RegisterSet {
    type V = RegisterSetModel;

    closed spec fn view(&self) -> RegisterSetModel {
        RegisterSetModel {
            unnamed: self.unnamed@,
            named: self.named@.map_values(|c: RegisterContent| c@),
            numbered: self.numbered@.map_values(|c: RegisterContent| c@),
        }
    }
}

/// The content appended to a named register: the new nodes and keys after
/// the existing ones.
pub open spec fn appended(a: ContentModel, b: ContentModel) -> ContentModel {
    ContentModel { nodes: a.nodes + b.nodes, keys: a.keys + b.keys }
}

impl RegisterSet {
    pub closed spec fn wf(&self) -> bool {
        self.named.wf() && self.numbered@.len() == 10
    }

    /// All registers empty.
    pub fn new() -> (r: Self)
        ensures
            r.wf(),
            r@.unnamed == empty_content(),
            r@.named == Map::<char, ContentModel>::empty(),
            r@.numbered == Seq::new(10, |i: int| empty_content()),
    {
        let mut numbered: Vec<RegisterContent> = Vec::new();
        let mut i: usize = 0;
        while i < 10
            invariant
                i <= 10,
                numbered@.len() == i,
                forall|j: int| 0 <= j < i ==> (#[trigger] numbered@[j])@ == empty_content(),
            decreases 10 - i,
        {
            numbered.push(RegisterContent::new(Vec::new(), Vec::new()));
            proof {
                let c = numbered@[i as int];
                assert(c@.nodes =~= Seq::<NodeModel>::empty());
                assert(c@.keys =~= Seq::<Option<Seq<char>>>::empty());
            }
            i = i + 1;
        }
        let unnamed = RegisterContent::new(Vec::new(), Vec::new());
        assert(unnamed@.nodes =~= Seq::<NodeModel>::empty());
        assert(unnamed@.keys =~= Seq::<Option<Seq<char>>>::empty());
        let r = RegisterSet { unnamed, named: AssocMap::new(), numbered };
        assert(r@.named =~= Map::<char, ContentModel>::empty());
        assert(r@.numbered =~= Seq::new(10, |i: int| empty_content()));
        r
    }

    /// The unnamed register.
    pub fn get_unnamed(&self) -> (r: &RegisterContent)
        ensures
            r@ == self@.unnamed,
    {
        &self.unnamed
    }

    /// Replaces the unnamed register.
    pub fn set_unnamed(&mut self, content: RegisterContent)
        requires
            old(self).wf(),
        ensures
            final(self).wf(),
            final(self)@ == (RegisterSetModel { unnamed: content@, ..old(self)@ }),
    {
        self.unnamed = content;
    }

    /// The named register `register` (letters are taken lower-case).
    pub fn get_named(&self, register: char) -> (r: Option<&RegisterContent>)
        requires
            self.wf(),
        ensures
            match r {
                Some(c) => self@.named.contains_key(lower_char(register)) && self@.named[lower_char(register)] == c@,
                None => !self@.named.contains_key(lower_char(register)),
            },
    {
        let key = to_ascii_lowercase(register);
        self.named.get(&key)
    }

    /// Replaces the named register `register` (letters are taken lower-case).
    pub fn set_named(&mut self, register: char, content: RegisterContent)
        requires
            old(self).wf(),
        ensures
            final(self).wf(),
            final(self)@ == (RegisterSetModel {
                named: old(self)@.named.insert(lower_char(register), content@),
                ..old(self)@
            }),
    {
        let key = to_ascii_lowercase(register);
        let ghost c = content@;
        self.named.insert(key, content);
        assert(self@.named =~= old(self)@.named.insert(lower_char(register), c));
    }

    /// Any register: a digit selects a numbered register, anything else a
    /// named one.
    pub fn get(&self, register: char) -> (r: Option<&RegisterContent>)
        requires
            self.wf(),
        ensures
            ('0' <= register && register <= '9') ==> (r matches Some(c)
                && c@ == self@.numbered[(register as u32) - ('0' as u32)]),
            !('0' <= register && register <= '9') ==> match r {
                Some(c) => self@.named.contains_key(lower_char(register)) && self@.named[lower_char(register)] == c@,
                None => !self@.named.contains_key(lower_char(register)),
            },
    {
        match digit_value(register) {
            Some(d) => Some(&self.numbered[d as usize]),
            None => self.get_named(register),
        }
    }

    /// The numbered register `index`.
    pub fn get_numbered(&self, index: usize) -> (r: &RegisterContent)
        requires
            self.wf(),
            index < 10,
        ensures
            r@ == self@.numbered[index as int],
    {
        &self.numbered[index]
    }

    /// Replaces the numbered register `index`.
    pub fn set_numbered(&mut self, index: usize, content: RegisterContent)
        requires
            old(self).wf(),
            index < 10,
        ensures
            final(self).wf(),
            final(self)@ == (RegisterSetModel {
                numbered: old(self)@.numbered.update(index as int, content@),
                ..old(self)@
            }),
    {
        let ghost c = content@;
        self.numbered.set(index, content);
        assert(self@.numbered =~= old(self)@.numbered.update(index as int, c));
    }

    /// Appends to the named register `register` (letters are taken
    /// lower-case); an empty register takes the content as it is.
    pub fn append_named(&mut self, register: char, content: RegisterContent)
        requires
            old(self).wf(),
        ensures
            final(self).wf(),
            final(self)@ == (RegisterSetModel {
                named: old(self)@.named.insert(
                    lower_char(register),
                    if old(self)@.named.contains_key(lower_char(register)) {
                        appended(old(self)@.named[lower_char(register)], content@)
                    } else {
                        content@
                    },
                ),
                ..old(self)@
            }),
    {
        let key = to_ascii_lowercase(register);
        let ghost c = content@;
        let ghost before = self@.named;
        match self.named.remove(&key) {
            Some(mut existing) => {
                let ghost e0 = existing@;
                let mut nodes = content.nodes;
                let mut keys = content.keys;
                existing.nodes.append(&mut nodes);
                existing.keys.append(&mut keys);
                proof {
                    assert(existing@.nodes =~= e0.nodes + c.nodes);
                    assert(existing@.keys =~= e0.keys + c.keys);
                }
                let ghost x = existing@;
                self.named.insert(key, existing);
                assert(self@.named =~= before.insert(lower_char(register), x));
            },
            None => {
                self.named.insert(key, content);
                assert(self@.named =~= before.insert(lower_char(register), c));
            },
        }
    }

    /// Pushes deleted content onto the delete history: `"9` is dropped,
    /// `"1`-`"8` move to `"2`-`"9`, and the content goes to `"1`.
    pub fn push_delete_history(&mut self, content: RegisterContent)
        requires
            old(self).wf(),
        ensures
            final(self).wf(),
            final(self)@ == (RegisterSetModel {
                numbered: seq![old(self)@.numbered[0], content@] + old(self)@.numbered.subrange(1, 9),
                ..old(self)@
            }),
    {
        let ghost n0 = self@.numbered;
        let mut k: usize = 0;
        while k < 8
            invariant
                k <= 8,
                self.numbered@.len() == 10,
                self.named == old(self).named,
                self.unnamed == old(self).unnamed,
                n0 == old(self)@.numbered,
                n0.len() == 10,
                forall|j: int| 0 <= j < 10 - k ==> (#[trigger] self.numbered@[j])@ == n0[j],
                forall|j: int| 10 - k <= j < 10 ==> (#[trigger] self.numbered@[j])@ == n0[j - 1],
            decreases 8 - k,
        {
            let i = 8 - k;
            let copy = self.numbered[i].duplicate();
            self.numbered.set(i + 1, copy);
            k = k + 1;
        }
        let ghost c = content@;
        self.numbered.set(1, content);
        assert(self@.numbered =~= seq![n0[0], c] + n0.subrange(1, 9));
    }

    /// A well-formed register set has ten numbered registers.
    pub proof fn lemma_ten_numbered(&self)
        requires
            self.wf(),
        ensures
            self@.numbered.len() == 10,
    {
    }

    /// Puts the latest yank into `"0`.
    pub fn update_yank_register(&mut self, content: RegisterContent)
        requires
            old(self).wf(),
        ensures
            final(self).wf(),
            final(self)@ == (RegisterSetModel {
                numbered: old(self)@.numbered.update(0, content@),
                ..old(self)@
            }),
    {
        self.set_numbered(0, content);
    }
}

impl Default for RegisterSet {
    fn default() -> (r: Self)
        ensures
            r.wf(),
            r@.unnamed == empty_content(),
            r@.named == Map::<char, ContentModel>::empty(),
            r@.numbered == Seq::new(10, |i: int| empty_content()),
    {
        RegisterSet::new()
    }
}

/// A named register reads back what was last written to it, under either
/// case of its letter; the other registers keep their content.
pub proof fn law_named_read_after_write(
    before: RegisterSetModel,
    after: RegisterSetModel,
    register: char,
    read_as: char,
    content: ContentModel,
)
    requires
        after == (RegisterSetModel { named: before.named.insert(lower_char(register), content), ..before }),
        'a' <= register <= 'z',
        read_as == register || read_as as u32 + 32 == register as u32,
    ensures
        after.named.contains_key(lower_char(read_as)),
        after.named[lower_char(read_as)] == content,
        after.unnamed == before.unnamed,
        after.numbered == before.numbered,
        forall|k: char| k != lower_char(register) && #[trigger] before.named.contains_key(k) ==> after.named.contains_key(k) && after.named[k] == before.named[k],
{
    assert(lower_char(read_as) == register);
}

/// The delete history ages by one place per delete: after two pushes, `"1`
/// holds the second content, `"2` the first, and `"0` (the last yank) is
/// kept.
pub proof fn law_delete_history_ages(
    r0: RegisterSetModel,
    r1: RegisterSetModel,
    r2: RegisterSetModel,
    first: ContentModel,
    second: ContentModel,
)
    requires
        r0.numbered.len() == 10,
        r1 == (RegisterSetModel { numbered: seq![r0.numbered[0], first] + r0.numbered.subrange(1, 9), ..r0 }),
        r2 == (RegisterSetModel { numbered: seq![r1.numbered[0], second] + r1.numbered.subrange(1, 9), ..r1 }),
    ensures
        r2.numbered.len() == 10,
        r2.numbered[0] == r0.numbered[0],
        r2.numbered[1] == second,
        r2.numbered[2] == first,
        forall|i: int| 3 <= i < 10 ==> #[trigger] r2.numbered[i] == r0.numbered[i - 2],
{
}

} // verus!
