use vstd::prelude::*;
use crate::text::str_eq;

verus! {

/// A page of a project, as the designer stores it.
#[derive(Debug)]
pub struct Page {
    pub id: String,
    /// The page's name.
    pub name: String,
    /// The page's route.
    pub path: Option<String>,
    /// A description of the page.
    pub remark: Option<String>,
    /// The page's design, a JSON document.
    pub page_data: String,
    pub created_at: String,
    pub updated_at: String,
    /// The project the page belongs to.
    pub project_id: String,
}

impl Clone for Page {
    fn clone(&self) -> (r: Self)
        ensures
            r == *self,
    {
        Page {
            id: self.id.clone(),
            name: self.name.clone(),
            path: self.path.clone(),
            remark: self.remark.clone(),
            page_data: self.page_data.clone(),
            created_at: self.created_at.clone(),
            updated_at: self.updated_at.clone(),
            project_id: self.project_id.clone(),
        }
    }
}

/// One node of a page's component tree.
#[derive(Debug)]
pub struct Element {
    pub id: String,
    pub parent_id: Option<String>,
    /// The kind of component.
    pub component_type: String,
    pub name: String,
    /// The node's children.
    pub elements: Vec<Element>,
}

/// An event binding of a component.
#[derive(Debug)]
pub struct Event {
    pub value: String,
    pub name: String,
}

impl Clone for Event {
    fn clone(&self) -> (r: Self)
        ensures
            r == *self,
    {
        Event { value: self.value.clone(), name: self.name.clone() }
    }
}

/// A method of a component.
#[derive(Debug)]
pub struct Method {
    pub name: String,
    pub title: String,
}

impl Clone for Method {
    fn clone(&self) -> (r: Self)
        ensures
            r == *self,
    {
        Method { name: self.name.clone(), title: self.title.clone() }
    }
}

/// The settings of a component: its configuration (a JSON document, held as its text),
/// its events and its methods.
#[derive(Debug)]
pub struct ElementObj {
    pub config: String,
    pub events: Vec<Event>,
    pub methods: Vec<Method>,
}

/// A request header.
#[derive(Debug)]
pub struct Header {
    pub key: String,
    pub value: String,
}

impl Clone for Header {
    fn clone(&self) -> (r: Self)
        ensures
            r == *self,
    {
        Header { key: self.key.clone(), value: self.value.clone() }
    }
}

/// The request interceptor of a page.
#[derive(Debug)]
pub struct Interceptor {
    pub headers: Vec<Header>,
    pub timeout: u32,
    pub timeout_error_message: String,
}

impl Clone for Interceptor {
    fn clone(&self) -> (r: Self)
        ensures
            r.headers@ == self.headers@,
            r.timeout == self.timeout,
            r.timeout_error_message == self.timeout_error_message,
    {
        let headers = self.headers.clone();
        assert(headers@ =~= self.headers@);
        Interceptor {
            headers,
            timeout: self.timeout,
            timeout_error_message: self.timeout_error_message.clone(),
        }
    }
}

/// A node of the component tree together with its settings.
#[derive(Debug)]
pub struct MergedElement {
    pub id: String,
    pub parent_id: Option<String>,
    pub component_type: String,
    pub name: String,
    pub elements: Vec<MergedElement>,
    pub config: String,
    pub events: Vec<Event>,
    pub methods: Vec<Method>,
}

/// The settings of a page's components, keyed by component id. No key occurs twice.
#[derive(Debug)]
pub struct ElementMap {
    entries: Vec<(String, ElementObj)>,
}

/// The settings filed under `key`: those of the first entry with that key.
pub open spec fn lookup(entries: Seq<(String, ElementObj)>, key: Seq<char>) -> Option<ElementObj>
    decreases entries.len(),
{
    if entries.len() == 0 {
        None
    } else if entries[0].0@ == key {
        Some(entries[0].1)
    } else {
        lookup(entries.drop_first(), key)
    }
}

/// No two entries share a key.
pub open spec fn keys_distinct(entries: Seq<(String, ElementObj)>) -> bool {
    forall|i: int, j: int|
        0 <= i < j < entries.len() ==> #[trigger] entries[i].0@ != #[trigger] entries[j].0@
}

proof fn lemma_lookup_absent(entries: Seq<(String, ElementObj)>, key: Seq<char>)
    requires
        forall|i: int| 0 <= i < entries.len() ==> #[trigger] entries[i].0@ != key,
    ensures
        lookup(entries, key) is None,
    decreases entries.len(),
{
    if entries.len() > 0 {
        assert(entries[0].0@ != key);
        assert forall|i: int| 0 <= i < entries.drop_first().len() implies #[trigger] entries.drop_first()[i].0@ != key by {
            assert(entries.drop_first()[i] == entries[i + 1]);
        }
        lemma_lookup_absent(entries.drop_first(), key);
    }
}

proof fn lemma_lookup_at(entries: Seq<(String, ElementObj)>, key: Seq<char>, k: int)
    requires
        0 <= k < entries.len(),
        entries[k].0@ == key,
        forall|i: int| 0 <= i < k ==> #[trigger] entries[i].0@ != key,
    ensures
        lookup(entries, key) == Some(entries[k].1),
    decreases k,
{
    if k > 0 {
        assert(entries[0].0@ != key);
        assert forall|i: int| 0 <= i < k - 1 implies #[trigger] entries.drop_first()[i].0@ != key by {
            assert(entries.drop_first()[i] == entries[i + 1]);
        }
        lemma_lookup_at(entries.drop_first(), key, k - 1);
    }
}

/// The index of the entry of `entries` with key `key`, if there is one.
fn find_key(entries: &Vec<(String, ElementObj)>, key: &str) -> (r: Option<usize>)
    ensures
        match r {
            Some(k) => k < entries@.len() && entries@[k as int].0@ == key@ && forall|i: int|
                0 <= i < k ==> #[trigger] entries@[i].0@ != key@,
            None => forall|i: int| 0 <= i < entries@.len() ==> #[trigger] entries@[i].0@ != key@,
        },
{
    let mut i: usize = 0;
    while i < entries.len()
        invariant
            i <= entries@.len(),
            forall|j: int| 0 <= j < i ==> #[trigger] entries@[j].0@ != key@,
        decreases entries@.len() - i,
    {
        if str_eq(entries[i].0.as_str(), key) {
            return Some(i);
        }
        i += 1;
    }
    None
}

impl ElementMap {
    /// No key occurs twice in the map.
    #[verifier::type_invariant]
    spec fn wf(&self) -> bool {
        keys_distinct(self.entries@)
    }

    /// The entries of the map, each key with its settings, in the order they were filed.
    pub closed spec fn contents(&self) -> Seq<(String, ElementObj)> {
        self.entries@
    }

    /// The number of keys in the map.
    pub fn len(&self) -> (n: usize)
        ensures
            n == self.contents().len(),
    {
        self.entries.len()
    }

    /// An empty map.
    pub fn new() -> (m: Self)
        ensures
            m.contents().len() == 0,
            keys_distinct(m.contents()),
    {
        ElementMap { entries: Vec::new() }
    }

    /// The settings filed under `key`.
    pub fn get(&self, key: &str) -> (r: Option<&ElementObj>)
        ensures
            match r {
                Some(o) => lookup(self.contents(), key@) == Some(*o),
                None => lookup(self.contents(), key@) is None,
            },
            keys_distinct(self.contents()),
    {
        proof {
            use_type_invariant(self);
        }
        match find_key(&self.entries, key) {
            Some(k) => {
                proof {
                    lemma_lookup_at(self.entries@, key@, k as int);
                }
                Some(&self.entries[k].1)
            },
            None => {
                proof {
                    lemma_lookup_absent(self.entries@, key@);
                }
                None
            },
        }
    }

    /// Files `obj` under `key`, replacing what was filed there before.
    pub fn insert(&mut self, key: String, obj: ElementObj)
        ensures
            keys_distinct(final(self).contents()),
            lookup(final(self).contents(), key@) == Some(obj),
            forall|k: Seq<char>|
                k != key@ ==> #[trigger] lookup(final(self).contents(), k) == lookup(
                    old(self).contents(),
                    k,
                ),
    {
        proof {
            use_type_invariant(&*self);
        }
        let mut entries: Vec<(String, ElementObj)> = Vec::new();
        std::mem::swap(&mut entries, &mut self.entries);
        let ghost before = entries@;
        match find_key(&entries, key.as_str()) {
            Some(k) => {
                let ghost kk = key@;
                entries.set(k, (key, obj));
                proof {
                    let after = entries@;
                    assert(after == before.update(k as int, after[k as int]));
                    lemma_lookup_at(after, kk, k as int);
                    assert forall|q: Seq<char>| q != kk implies #[trigger] lookup(after, q) == lookup(
                        before,
                        q,
                    ) by {
                        lemma_lookup_other(before, after, q, k as int);
                    }
                }
            },
            None => {
                let ghost kk = key@;
                entries.push((key, obj));
                proof {
                    let after = entries@;
                    assert(after == before.push(after[before.len() as int]));
                    lemma_lookup_at(after, kk, before.len() as int);
                    assert forall|q: Seq<char>| q != kk implies #[trigger] lookup(after, q) == lookup(
                        before,
                        q,
                    ) by {
                        lemma_lookup_push_other(before, after[before.len() as int], q);
                    }
                }
            },
        }
        self.entries = entries;
    }
}

proof fn lemma_lookup_other(
    before: Seq<(String, ElementObj)>,
    after: Seq<(String, ElementObj)>,
    q: Seq<char>,
    k: int,
)
    requires
        0 <= k < before.len(),
        after.len() == before.len(),
        after[k].0@ == before[k].0@,
        forall|i: int| 0 <= i < before.len() && i != k ==> after[i] == before[i],
        after[k].0@ != q,
    ensures
        lookup(after, q) == lookup(before, q),
    decreases before.len(),
{
    if before.len() > 0 {
        if k > 0 {
            assert(after[0] == before[0]);
            lemma_lookup_other(before.drop_first(), after.drop_first(), q, k - 1);
        } else {
            assert(after.drop_first() =~= before.drop_first());
        }
    }
}

proof fn lemma_lookup_push_other(before: Seq<(String, ElementObj)>, x: (String, ElementObj), q: Seq<char>)
    requires
        x.0@ != q,
    ensures
        lookup(before.push(x), q) == lookup(before, q),
    decreases before.len(),
{
    if before.len() > 0 {
        assert(before.push(x).drop_first() =~= before.drop_first().push(x));
        lemma_lookup_push_other(before.drop_first(), x, q);
    } else {
        assert(before.push(x).drop_first() =~= before);
    }
}

/// `out` is what merging the component tree `elements` with the settings in `map` gives:
/// every node whose id has settings becomes a merged node, in the same order, and a node
/// without settings is left out together with its children.
pub open spec fn merges_to(
    elements: Seq<Element>,
    map: Seq<(String, ElementObj)>,
    out: Seq<MergedElement>,
) -> bool
    decreases elements,
{
    if elements.len() == 0 {
        out.len() == 0
    } else {
        let e = elements[elements.len() - 1];
        let init = elements.subrange(0, elements.len() - 1);
        match lookup(map, e.id@) {
            Some(obj) => {
                &&& out.len() > 0
                &&& merges_to(init, map, out.subrange(0, out.len() - 1))
                &&& merged_node(e, obj, map, out[out.len() - 1])
            },
            None => merges_to(init, map, out),
        }
    }
}

/// `m` is the merge of the node `e`, whose settings are `obj`, with its children merged by
/// `merges_to`.
pub open spec fn merged_node(
    e: Element,
    obj: ElementObj,
    map: Seq<(String, ElementObj)>,
    m: MergedElement,
) -> bool
    decreases e,
{
    &&& m.id == e.id
    &&& m.parent_id == e.parent_id
    &&& m.component_type == e.component_type
    &&& m.name == e.name
    &&& m.config == obj.config
    &&& m.events@ == obj.events@
    &&& m.methods@ == obj.methods@
    &&& merges_to(e.elements@, map, m.elements@)
}

/// Merging keeps, in their order, exactly the nodes of `elements` that have settings in `map`:
/// `src` gives for each merged node the index of the node it was made from. Each merged node
/// carries that node's id, parent, type and name, and the settings filed under its id; its
/// children are the merge of the node's children.
pub proof fn lemma_merge_element(
    elements: Seq<Element>,
    map: Seq<(String, ElementObj)>,
    out: Seq<MergedElement>,
) -> (src: Seq<int>)
    requires
        merges_to(elements, map, out),
    ensures
        src.len() == out.len(),
        forall|i: int| 0 <= i < src.len() ==> 0 <= #[trigger] src[i] < elements.len(),
        forall|i: int, i2: int| 0 <= i < i2 < src.len() ==> #[trigger] src[i] < #[trigger] src[i2],
        forall|i: int|
            #![trigger out[i]]
            0 <= i < out.len() ==> {
                let e = elements[src[i]];
                &&& out[i].id == e.id
                &&& out[i].parent_id == e.parent_id
                &&& out[i].component_type == e.component_type
                &&& out[i].name == e.name
                &&& lookup(map, e.id@) is Some
                &&& out[i].config == lookup(map, e.id@)->Some_0.config
                &&& out[i].events@ == lookup(map, e.id@)->Some_0.events@
                &&& out[i].methods@ == lookup(map, e.id@)->Some_0.methods@
                &&& merges_to(e.elements@, map, out[i].elements@)
            },
        forall|j: int|
            0 <= j < elements.len() && (#[trigger] lookup(map, elements[j].id@)) is Some ==> exists|
                i: int,
            | 0 <= i < src.len() && src[i] == j,
    decreases elements.len(),
{
    if elements.len() == 0 {
        Seq::empty()
    } else {
        let n = elements.len() - 1;
        let e = elements[n];
        let init = elements.subrange(0, n);
        assert forall|j: int| 0 <= j < n implies #[trigger] init[j] == elements[j] by {}
        match lookup(map, e.id@) {
            Some(obj) => {
                let out0 = out.subrange(0, out.len() - 1);
                let src0 = lemma_merge_element(init, map, out0);
                let src = src0.push(n);
                assert forall|i: int| #![trigger out[i]] 0 <= i < out.len() implies {
                    let e2 = elements[src[i]];
                    &&& out[i].id == e2.id
                    &&& out[i].parent_id == e2.parent_id
                    &&& out[i].component_type == e2.component_type
                    &&& out[i].name == e2.name
                    &&& lookup(map, e2.id@) is Some
                    &&& out[i].config == lookup(map, e2.id@)->Some_0.config
                    &&& out[i].events@ == lookup(map, e2.id@)->Some_0.events@
                    &&& out[i].methods@ == lookup(map, e2.id@)->Some_0.methods@
                    &&& merges_to(e2.elements@, map, out[i].elements@)
                } by {
                    if i < out.len() - 1 {
                        assert(out[i] == out0[i]);
                        assert(src[i] == src0[i]);
                        assert(0 <= src0[i] < n);
                        assert(elements[src0[i]] == init[src0[i]]);
                    } else {
                        assert(src[i] == n);
                        assert(merged_node(e, obj, map, out[out.len() - 1]));
                    }
                }
                assert forall|j: int|
                    0 <= j < elements.len() && (#[trigger] lookup(map, elements[j].id@)) is Some implies exists|
                    i: int,
                | 0 <= i < src.len() && src[i] == j by {
                    if j < n {
                        assert(lookup(map, init[j].id@) is Some);
                        let i = choose|i: int| 0 <= i < src0.len() && src0[i] == j;
                        assert(src[i] == src0[i]);
                    } else {
                        assert(src[src.len() - 1] == n);
                    }
                }
                assert forall|i: int, i2: int| 0 <= i < i2 < src.len() implies #[trigger] src[i]
                    < #[trigger] src[i2] by {
                    if i2 < src0.len() {
                        assert(src[i] == src0[i] && src[i2] == src0[i2]);
                    } else {
                        assert(src[i] == src0[i]);
                    }
                }
                src
            },
            None => {
                let src = lemma_merge_element(init, map, out);
                assert forall|i: int| #![trigger out[i]] 0 <= i < out.len() implies {
                    let e2 = elements[src[i]];
                    &&& out[i].id == e2.id
                    &&& out[i].parent_id == e2.parent_id
                    &&& out[i].component_type == e2.component_type
                    &&& out[i].name == e2.name
                    &&& lookup(map, e2.id@) is Some
                    &&& out[i].config == lookup(map, e2.id@)->Some_0.config
                    &&& out[i].events@ == lookup(map, e2.id@)->Some_0.events@
                    &&& out[i].methods@ == lookup(map, e2.id@)->Some_0.methods@
                    &&& merges_to(e2.elements@, map, out[i].elements@)
                } by {
                    assert(0 <= src[i] < n);
                    assert(out[i].id == init[src[i]].id);
                    assert(elements[src[i]] == init[src[i]]);
                }
                assert forall|j: int|
                    0 <= j < elements.len() && (#[trigger] lookup(map, elements[j].id@)) is Some implies exists|
                    i: int,
                | 0 <= i < src.len() && src[i] == j by {
                    if j < n {
                        assert(lookup(map, init[j].id@) is Some);
                    }
                }
                src
            },
        }
    }
}

fn clone_events(v: &Vec<Event>) -> (r: Vec<Event>)
    ensures
        r@ == v@,
{
    let r = v.clone();
    assert(r@ =~= v@);
    r
}

fn clone_methods(v: &Vec<Method>) -> (r: Vec<Method>)
    ensures
        r@ == v@,
{
    let r = v.clone();
    assert(r@ =~= v@);
    r
}

/// Merges the component tree `elements` with the settings in `elements_map`.
pub fn merge_element(elements: &Vec<Element>, elements_map: &ElementMap) -> (merged: Vec<
    MergedElement,
>)
    ensures
        merges_to(elements@, elements_map.contents(), merged@),
    decreases elements@,
{
    let mut merged: Vec<MergedElement> = Vec::new();
    let mut i: usize = 0;
    while i < elements.len()
        invariant
            i <= elements@.len(),
            merges_to(elements@.subrange(0, i as int), elements_map.contents(), merged@),
        decreases elements@.len() - i,
    {
        let element = &elements[i];
        let ghost before = merged@;
        proof {
            assert(elements@.subrange(0, i + 1).subrange(0, i as int) =~= elements@.subrange(
                0,
                i as int,
            ));
            assert(elements@.subrange(0, i + 1)[i as int] == elements@[i as int]);
        }
        match elements_map.get(element.id.as_str()) {
            Some(obj) => {
                let mut children: Vec<MergedElement> = Vec::new();
                if element.elements.len() > 0 {
                    proof {
                        assert(decreases_to!(elements@ => elements@[i as int]));
                        assert(decreases_to!(elements@[i as int] => elements@[i as int].elements));
                        assert(decreases_to!(elements@[i as int].elements => elements@[i as int].elements@));
                    }
                    children = merge_element(&element.elements, elements_map);
                } else {
                    assert(element.elements@.len() == 0);
                }
                let m = MergedElement {
                    id: element.id.clone(),
                    parent_id: element.parent_id.clone(),
                    component_type: element.component_type.clone(),
                    name: element.name.clone(),
                    elements: children,
                    config: obj.config.clone(),
                    events: clone_events(&obj.events),
                    methods: clone_methods(&obj.methods),
                };
                assert(merged_node(elements@[i as int], *obj, elements_map.contents(), m));
                merged.push(m);
                proof {
                    assert(merged@.subrange(0, merged@.len() - 1) =~= before);
                    assert(merged@[merged@.len() - 1] == m);
                }
            },
            None => {},
        }
        i += 1;
    }
    assert(elements@.subrange(0, elements@.len() as int) =~= elements@);
    merged
}

} // verus!
