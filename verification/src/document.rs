use vstd::prelude::*;
use crate::elements::{
    alias_key, Command, CommandView, Header, HeaderView, PartAlias, PartReference,
    PartReferenceView, Winding,
};

verus! {

/// What a document says of the winding of its faces as a whole.
#[derive(Debug, Clone, Copy, PartialEq, Eq, Structural)]
pub enum BfcCertification {
    NotApplicable,
    NoCertify,
    Certify(Winding),
}

/// One model: what its meta lines say of it, and its commands in the order
/// of the lines that gave them.
#[derive(Debug, PartialEq, Eq)]
pub struct Document {
    pub name: String,
    pub description: String,
    pub author: String,
    pub bfc: BfcCertification,
    pub headers: Vec<Header>,
    pub commands: Vec<Command>,
}

/// The mathematical value of a [`Document`].
pub struct DocumentView {
    pub name: Seq<char>,
    pub description: Seq<char>,
    pub author: Seq<char>,
    pub bfc: BfcCertification,
    pub headers: Seq<HeaderView>,
    pub commands: Seq<CommandView>,
}

impl View for Document {
    type V = DocumentView;

    open spec fn view(&self) -> DocumentView {
        DocumentView {
            name: self.name@,
            description: self.description@,
            author: self.author@,
            bfc: self.bfc,
            headers: self.headers@.map_values(|h: Header| h@),
            commands: self.commands@.map_values(|c: Command| c@),
        }
    }
}

/// The references to other models among `commands`, in their order.
pub open spec fn references_of(commands: Seq<CommandView>) -> Seq<PartReferenceView>
    decreases commands.len(),
{
    if commands.len() == 0 {
        Seq::empty()
    } else {
        let before = references_of(commands.drop_last());
        match commands.last() {
            CommandView::PartReference(reference) => before.push(reference),
            _ => before,
        }
    }
}

impl Document {
    /// The references to other models among the commands, in their order.
    pub fn part_references(&self) -> (r: Vec<&PartReference>)
        ensures
            r@.map_values(|p: &PartReference| p@) == references_of(self@.commands),
    {
        let ghost commands = self@.commands;
        let mut found: Vec<&PartReference> = Vec::new();
        let mut i: usize = 0;
        proof {
            assert(commands.take(0) =~= Seq::<CommandView>::empty());
            assert(found@.map_values(|p: &PartReference| p@) =~= references_of(commands.take(0)));
        }
        while i < self.commands.len()
            invariant
                i <= self.commands@.len(),
                commands == self.commands@.map_values(|c: Command| c@),
                found@.map_values(|p: &PartReference| p@) == references_of(commands.take(i as int)),
            decreases self.commands@.len() - i,
        {
            let ghost before = found@;
            proof {
                assert(commands.take(i + 1).drop_last() =~= commands.take(i as int));
                assert(commands.take(i + 1).last() == self.commands@[i as int]@);
            }
            match &self.commands[i] {
                Command::PartReference(reference) => {
                    found.push(reference);
                    assert(found@.map_values(|p: &PartReference| p@) =~= references_of(
                        commands.take(i + 1),
                    ));
                },
                _ => {},
            }
            i += 1;
        }
        assert(commands.take(i as int) =~= commands);
        found
    }
}

/// Whether the names of `keys` have keys that all differ.
spec fn distinct_keys(keys: Seq<PartAlias>) -> bool {
    forall|i: int, j: int|
        0 <= i < j < keys.len() ==> alias_key(#[trigger] keys[i]@) != alias_key(
            #[trigger] keys[j]@,
        )
}

/// Whether one of the names of `keys` has the key `key`.
spec fn has_key(keys: Seq<PartAlias>, key: Seq<char>) -> bool {
    exists|i: int| 0 <= i < keys.len() && alias_key(#[trigger] keys[i]@) == key
}

/// Where in `keys` a name with the key `key` stands.
spec fn key_index(keys: Seq<PartAlias>, key: Seq<char>) -> int {
    choose|i: int| 0 <= i < keys.len() && alias_key(#[trigger] keys[i]@) == key
}

/// The keys of the first `n` names of `keys`.
spec fn keys_of(keys: Seq<PartAlias>, n: int) -> Set<Seq<char>> {
    Set::new(|key: Seq<char>| exists|i: int| 0 <= i < n && alias_key(#[trigger] keys[i]@) == key)
}

/// Names whose keys all differ have as many keys as there are names.
proof fn lemma_keys_of(keys: Seq<PartAlias>, n: int)
    requires
        0 <= n <= keys.len(),
        distinct_keys(keys),
    ensures
        keys_of(keys, n).finite(),
        keys_of(keys, n).len() == n,
    decreases n,
{
    if n == 0 {
        assert(keys_of(keys, 0) =~= Set::<Seq<char>>::empty());
    } else {
        lemma_keys_of(keys, n - 1);
        let key = alias_key(keys[n - 1]@);
        assert(!keys_of(keys, n - 1).contains(key));
        assert(keys_of(keys, n) =~= keys_of(keys, n - 1).insert(key));
    }
}

/// The sub-models of a file, each under the key of its name. No key occurs
/// twice: a model put under a key that is taken replaces the one there.
#[derive(Debug, PartialEq, Eq)]
pub struct Subparts {
    names: Vec<PartAlias>,
    documents: Vec<Document>,
}

impl View for Subparts {
    type V = Map<Seq<char>, DocumentView>;

    /// The documents by the keys of their names.
    closed spec fn view(&self) -> Map<Seq<char>, DocumentView> {
        Map::new(
            |key: Seq<char>| has_key(self.names@, key),
            |key: Seq<char>| self.documents@[key_index(self.names@, key)]@,
        )
    }
}

impl Subparts {
    #[verifier::type_invariant]
    spec fn inv(self) -> bool {
        self.names@.len() == self.documents@.len() && distinct_keys(self.names@)
    }

    /// No sub-models.
    pub fn new() -> (r: Subparts)
        ensures
            r@ == Map::<Seq<char>, DocumentView>::empty(),
    {
        let r = Subparts { names: Vec::new(), documents: Vec::new() };
        assert(r@ =~= Map::<Seq<char>, DocumentView>::empty());
        r
    }

    fn find(&self, name: &PartAlias) -> (r: Option<usize>)
        ensures
            match r {
                Some(i) => i < self.names@.len() && alias_key(self.names@[i as int]@) == alias_key(
                    name@,
                ),
                None => !has_key(self.names@, alias_key(name@)),
            },
    {
        let mut i: usize = 0;
        while i < self.names.len()
            invariant
                i <= self.names@.len(),
                forall|k: int| 0 <= k < i ==> alias_key(#[trigger] self.names@[k]@) != alias_key(name@),
            decreases self.names@.len() - i,
        {
            if self.names[i].same_as(name) {
                return Some(i);
            }
            i += 1;
        }
        None
    }

    /// Puts `document` under the key of `name`, in place of what stood
    /// there.
    pub fn insert(&mut self, name: PartAlias, document: Document)
        ensures
            final(self)@ == old(self)@.insert(alias_key(name@), document@),
    {
        proof {
            use_type_invariant(&*self);
        }
        let ghost before = *self;
        let ghost key = alias_key(name@);
        let found = self.find(&name);
        let mut taken = Subparts { names: Vec::new(), documents: Vec::new() };
        std::mem::swap(self, &mut taken);
        let mut names = taken.names;
        let mut documents = taken.documents;
        match found {
            Some(i) => {
                documents.set(i, document);
                proof {
                    assert forall|k: Seq<char>| has_key(names@, k) implies (if k == key {
                        documents@[key_index(names@, k)]@ == document@
                    } else {
                        documents@[key_index(names@, k)] == before.documents@[key_index(names@, k)]
                    }) by {
                        let j = key_index(names@, k);
                        assert(alias_key(names@[i as int]@) == key);
                    }
                }
            },
            None => {
                names.push(name);
                documents.push(document);
                proof {
                    let n = before.names@.len() as int;
                    assert(alias_key(names@[n]@) == key);
                    assert forall|k: Seq<char>| has_key(names@, k) <==> (k == key || has_key(
                        before.names@,
                        k,
                    )) by {
                        if has_key(names@, k) {
                            let j = key_index(names@, k);
                            if j < n {
                                assert(alias_key(before.names@[j]@) == k);
                            }
                        }
                        if has_key(before.names@, k) {
                            let j = key_index(before.names@, k);
                            assert(alias_key(names@[j]@) == k);
                        }
                    }
                    assert forall|k: Seq<char>| has_key(before.names@, k) implies key_index(names@, k)
                        == key_index(before.names@, k) by {
                        let j = key_index(before.names@, k);
                        assert(alias_key(names@[j]@) == k);
                        let j2 = key_index(names@, k);
                        assert(alias_key(before.names@[j]@) != key);
                        if j2 == n {
                        } else if j2 < j {
                            assert(alias_key(names@[j2]@) != alias_key(names@[j]@));
                        } else if j < j2 {
                            assert(alias_key(names@[j]@) != alias_key(names@[j2]@));
                        }
                    }
                    assert(key_index(names@, key) == n) by {
                        let j2 = key_index(names@, key);
                        if j2 < n {
                            assert(alias_key(before.names@[j2]@) == key);
                        }
                    }
                }
            },
        }
        *self = Subparts { names, documents };
        assert(self@ =~= before@.insert(key, document@));
    }

    /// The sub-model whose name has the key of `name`.
    pub fn get(&self, name: &PartAlias) -> (r: Option<&Document>)
        ensures
            match r {
                Some(document) => self@.contains_key(alias_key(name@)) && self@[alias_key(name@)]
                    == document@,
                None => !self@.contains_key(alias_key(name@)),
            },
    {
        proof {
            use_type_invariant(self);
        }
        match self.find(name) {
            Some(i) => {
                proof {
                    let j = key_index(self.names@, alias_key(name@));
                    if j < i {
                        assert(alias_key(self.names@[j]@) != alias_key(self.names@[i as int]@));
                    } else if i < j {
                        assert(alias_key(self.names@[i as int]@) != alias_key(self.names@[j]@));
                    }
                }
                Some(&self.documents[i])
            },
            None => None,
        }
    }

    /// The names of the sub-models as they were written, in the order in
    /// which their keys came first. Each has its sub-model under its key,
    /// no two have one key, and there is no sub-model without a name.
    pub fn names(&self) -> (r: &Vec<PartAlias>)
        ensures
            self@.dom().finite(),
            r@.len() == self@.len(),
            forall|i: int| 0 <= i < r@.len() ==> self@.contains_key(alias_key(#[trigger] r@[i]@)),
            forall|key: Seq<char>|
                self@.contains_key(key) ==> exists|i: int|
                    0 <= i < r@.len() && alias_key(#[trigger] r@[i]@) == key,
            forall|i: int, j: int|
                0 <= i < j < r@.len() ==> alias_key(#[trigger] r@[i]@) != alias_key(
                    #[trigger] r@[j]@,
                ),
    {
        proof {
            use_type_invariant(self);
            lemma_keys_of(self.names@, self.names@.len() as int);
            assert(self@.dom() =~= keys_of(self.names@, self.names@.len() as int));
        }
        &self.names
    }

    /// Whether a sub-model stands under the key of `name`.
    pub fn contains_key(&self, name: &PartAlias) -> (r: bool)
        ensures
            r == self@.contains_key(alias_key(name@)),
    {
        self.find(name).is_some()
    }

    /// How many sub-models there are.
    pub fn len(&self) -> (r: usize)
        ensures
            self@.dom().finite(),
            r == self@.len(),
    {
        proof {
            use_type_invariant(self);
            lemma_keys_of(self.names@, self.names@.len() as int);
            assert(self@.dom() =~= keys_of(self.names@, self.names@.len() as int));
        }
        self.names.len()
    }

    pub fn is_empty(&self) -> (r: bool)
        ensures
            self@.dom().finite(),
            r == (self@.len() == 0),
    {
        self.len() == 0
    }
}

/// A file of several models: the first of them, and the others as its
/// sub-models.
#[derive(Debug, PartialEq, Eq)]
pub struct MultipartDocument {
    pub body: Document,
    pub subparts: Subparts,
}

/// The mathematical value of a [`MultipartDocument`].
pub struct MultipartDocumentView {
    pub body: DocumentView,
    pub subparts: Map<Seq<char>, DocumentView>,
}

impl View for MultipartDocument {
    type V = MultipartDocumentView;

    open spec fn view(&self) -> MultipartDocumentView {
        MultipartDocumentView { body: self.body@, subparts: self.subparts@ }
    }
}

} // verus!
