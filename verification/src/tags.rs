//! Labels on todos: the rule for label names, and how names are resolved to
//! label identifiers, creating labels as needed.

use vstd::prelude::*;
use vstd::string::{StrSliceExecFns, StringExecFns};
use crate::errors::{ServerError, StorageFault};
use crate::models::texts_view;

verus! {

/// The query that looks up a label: its one parameter is the name, its
/// result the column `id` of at most one row.
pub const LOOKUP_TAG_SQL: &'static str = "SELECT id FROM tags WHERE name = ?1";

/// The statement that inserts a label: its one parameter is the name.
pub const INSERT_TAG_SQL: &'static str = "INSERT INTO tags (name) VALUES (?1)";

/// The most labels one todo can carry.
pub const MAX_TAGS: usize = 5;

/// The most characters a label name can have.
pub const MAX_TAG_NAME_LEN: usize = 32;

/// The characters of label names: lower-case ASCII letters, digits,
/// underscore and hyphen.
pub open spec fn is_tag_char(c: char) -> bool {
    ('a' <= c && c <= 'z') || ('0' <= c && c <= '9') || c == '_' || c == '-'
}

/// A label name has 1 to 32 characters, each a label character.
pub open spec fn is_tag_name(name: Seq<char>) -> bool {
    &&& 1 <= name.len() <= MAX_TAG_NAME_LEN
    &&& forall|i: int| 0 <= i < name.len() ==> is_tag_char(#[trigger] name[i])
}

/// At most five names, each a label name.
pub open spec fn are_tag_names(names: Seq<Seq<char>>) -> bool {
    &&& names.len() <= MAX_TAGS
    &&& forall|i: int| 0 <= i < names.len() ==> is_tag_name(#[trigger] names[i])
}

/// Whether `c` is a label character.
pub fn is_valid_tag_char(c: char) -> (ok: bool)
    ensures
        ok == is_tag_char(c),
{
    (c >= 'a' && c <= 'z') || (c >= '0' && c <= '9') || c == '_' || c == '-'
}

/// Whether `name` is a label name.
pub fn is_valid_tag_name(name: &str) -> (ok: bool)
    ensures
        ok == is_tag_name(name@),
{
    let len = name.unicode_len();
    if len < 1 || len > MAX_TAG_NAME_LEN {
        return false;
    }
    let mut i: usize = 0;
    while i < len
        invariant
            i <= len,
            len == name@.len(),
            forall|k: int| 0 <= k < i ==> is_tag_char(#[trigger] name@[k]),
        decreases len - i,
    {
        if !is_valid_tag_char(name.get_char(i)) {
            return false;
        }
        i += 1;
    }
    true
}

/// What a request with too many labels is told.
pub open spec fn too_many_tags_message() -> Seq<char> {
    "a todo takes at most 5 tags"@
}

/// What a request with a malformed label name is told.
pub open spec fn bad_tag_name_message() -> Seq<char> {
    "a tag name is 1 to 32 characters out of a-z, 0-9, '_' and '-'"@
}

/// What a request with unacceptable label names is told: that there are
/// too many, or else that one is malformed.
pub open spec fn tag_names_refusal(names: Seq<Seq<char>>) -> Seq<char> {
    if names.len() > MAX_TAGS {
        too_many_tags_message()
    } else {
        bad_tag_name_message()
    }
}

/// The error refuses these label names, with the message for them.
pub open spec fn refuses_tag_names(e: ServerError, names: Seq<Seq<char>>) -> bool {
    e matches ServerError::Validation { message } && message@ == tag_names_refusal(names)
}

/// Checks the label names of a request: at most five, each a label name.
/// Too many names are reported before a malformed one.
pub fn validate_tag_names(names: &Vec<String>) -> (res: Result<(), ServerError>)
    ensures
        res is Ok <==> are_tag_names(texts_view(names@)),
        res matches Err(e) ==> refuses_tag_names(e, texts_view(names@)),
{
    if names.len() > MAX_TAGS {
        return Err(
            ServerError::Validation { message: String::from_str("a todo takes at most 5 tags") },
        );
    }
    let mut i: usize = 0;
    while i < names.len()
        invariant
            i <= names.len(),
            names.len() <= MAX_TAGS,
            forall|k: int| 0 <= k < i ==> is_tag_name(#[trigger] texts_view(names@)[k]),
        decreases names.len() - i,
    {
        if !is_valid_tag_name(names[i].as_str()) {
            assert(!is_tag_name(texts_view(names@)[i as int]));
            return Err(
                ServerError::Validation {
                    message: String::from_str(
                        "a tag name is 1 to 32 characters out of a-z, 0-9, '_' and '-'",
                    ),
                },
            );
        }
        i += 1;
    }
    Ok(())
}

/// Mathematical value of a [`Tag`].
pub struct TagView {
    pub id: u32,
    pub name: Seq<char>,
}

/// A label: its identifier in the store and its name.
#[derive(Debug)]
pub struct Tag {
    pub id: u32,
    pub name: String,
}

impl View for Tag {
    type V = TagView;

    open spec fn view(&self) -> TagView {
        TagView { id: self.id, name: self.name@ }
    }
}

impl Clone for Tag {
    fn clone(&self) -> (r: Self)
        ensures
            r == *self,
    {
        Tag { id: self.id, name: self.name.clone() }
    }
}

impl PartialEq for Tag {
    fn eq(&self, other: &Self) -> (r: bool) {
        self.id == other.id && self.name == other.name
    }
}

impl vstd::std_specs::cmp::PartialEqSpecImpl for Tag {
    open spec fn obeys_eq_spec() -> bool {
        true
    }

    open spec fn eq_spec(&self, other: &Self) -> bool {
        self@ == other@
    }
}

/// Views of a list of labels, element by element.
pub open spec fn tags_view(tags: Seq<Tag>) -> Seq<TagView> {
    Seq::new(tags.len(), |i: int| tags[i]@)
}

/// What the store answers to one step of a resolution.
#[derive(Debug, Clone, Copy, PartialEq, Eq, Structural)]
pub enum TagReply {
    /// The looked-up name has this identifier.
    Found { id: u32 },
    /// The looked-up name is not in the store.
    Missing,
    /// The name has been inserted.
    Inserted,
}

/// Mathematical value of a [`TagStep`].
pub enum TagStepView {
    Lookup { name: Seq<char> },
    Insert { name: Seq<char> },
    Done { tags: Seq<TagView> },
    Failed,
}

/// What a resolution asks of the store next, or how it ended.
#[derive(Debug)]
pub enum TagStep {
    /// Look up the identifier of this name.
    Lookup { name: String },
    /// Insert a label with this name.
    Insert { name: String },
    /// Every name is resolved: the labels, in the order of the names.
    Done { tags: Vec<Tag> },
    /// The store did not know a name that it had just inserted.
    Failed,
}

impl View for TagStep {
    type V = TagStepView;

    open spec fn view(&self) -> TagStepView {
        match self {
            TagStep::Lookup { name } => TagStepView::Lookup { name: name@ },
            TagStep::Insert { name } => TagStepView::Insert { name: name@ },
            TagStep::Done { tags } => TagStepView::Done { tags: tags_view(tags@) },
            TagStep::Failed => TagStepView::Failed,
        }
    }
}

/// Mathematical value of a [`TagResolver`]: the names to resolve, the labels
/// found for the first of them, and whether the name now in turn has been
/// inserted already.
pub struct TagResolverView {
    pub names: Seq<Seq<char>>,
    pub resolved: Seq<TagView>,
    pub inserted: bool,
}

impl TagResolverView {
    /// The state before anything is resolved.
    pub open spec fn start(names: Seq<Seq<char>>) -> TagResolverView {
        TagResolverView { names, resolved: Seq::empty(), inserted: false }
    }

    /// As many labels as names are resolved.
    pub open spec fn finished(self) -> bool {
        self.resolved.len() >= self.names.len()
    }

    /// The name now in turn.
    pub open spec fn current(self) -> Seq<char> {
        self.names[self.resolved.len() as int]
    }

    /// What a state that awaits no reply asks next: a lookup of the name in
    /// turn, or nothing more.
    pub open spec fn request(self) -> TagStepView {
        if self.finished() {
            TagStepView::Done { tags: self.resolved }
        } else {
            TagStepView::Lookup { name: self.current() }
        }
    }

    /// The state after a reply of the store.
    pub open spec fn after(self, reply: TagReply) -> TagResolverView {
        if self.finished() {
            self
        } else {
            match reply {
                TagReply::Found { id } => TagResolverView {
                    resolved: self.resolved.push(TagView { id, name: self.current() }),
                    inserted: false,
                    ..self
                },
                TagReply::Missing => TagResolverView { inserted: true, ..self },
                TagReply::Inserted => self,
            }
        }
    }

    /// What is asked of the store after a reply: a name that is found is
    /// resolved and the next one looked up; a name that is missing is
    /// inserted, once, and then looked up again.
    pub open spec fn step(self, reply: TagReply) -> TagStepView {
        if self.finished() {
            self.request()
        } else {
            match reply {
                TagReply::Found { .. } => self.after(reply).request(),
                TagReply::Missing => if self.inserted {
                    TagStepView::Failed
                } else {
                    TagStepView::Insert { name: self.current() }
                },
                TagReply::Inserted => TagStepView::Lookup { name: self.current() },
            }
        }
    }
}

/// Resolves label names to labels, one store call at a time. The caller
/// performs each step against the store and hands back the reply.
#[derive(Debug)]
pub struct TagResolver {
    names: Vec<String>,
    resolved: Vec<Tag>,
    inserted: bool,
}

impl View for TagResolver {
    type V = TagResolverView;

    closed spec fn view(&self) -> TagResolverView {
        TagResolverView {
            names: texts_view(self.names@),
            resolved: tags_view(self.resolved@),
            inserted: self.inserted,
        }
    }
}

impl TagResolver {
    /// What this state asks when it awaits no reply.
    fn request(&self) -> (step: TagStep)
        ensures
            step@ == self@.request(),
    {
        if self.resolved.len() >= self.names.len() {
            let tags = self.resolved.clone();
            assert(tags_view(tags@) =~= tags_view(self.resolved@));
            TagStep::Done { tags }
        } else {
            TagStep::Lookup { name: self.names[self.resolved.len()].clone() }
        }
    }

    /// Begins the resolution of `names` and returns the first step.
    pub fn start(names: Vec<String>) -> (r: (TagResolver, TagStep))
        ensures
            r.0@ == TagResolverView::start(texts_view(names@)),
            r.1@ == r.0@.request(),
    {
        let resolver = TagResolver { names, resolved: Vec::new(), inserted: false };
        assert(resolver@.resolved =~= Seq::empty());
        let step = resolver.request();
        (resolver, step)
    }

    /// Takes the reply of the store to the last step and returns the next
    /// step.
    pub fn next(&mut self, reply: TagReply) -> (step: TagStep)
        ensures
            final(self)@ == old(self)@.after(reply),
            step@ == old(self)@.step(reply),
    {
        if self.resolved.len() >= self.names.len() {
            return self.request();
        }
        let position = self.resolved.len();
        match reply {
            TagReply::Found { id } => {
                let ghost before = self@;
                self.resolved.push(Tag { id, name: self.names[position].clone() });
                self.inserted = false;
                assert(self@.resolved =~= before.resolved.push(
                    TagView { id, name: before.current() },
                ));
                self.request()
            },
            TagReply::Missing => {
                if self.inserted {
                    TagStep::Failed
                } else {
                    self.inserted = true;
                    TagStep::Insert { name: self.names[position].clone() }
                }
            },
            TagReply::Inserted => TagStep::Lookup { name: self.names[position].clone() },
        }
    }
}

/// Mathematical value of a [`TagTable`]: the labels in insertion order and
/// the identifier that the next label will get.
pub struct TagTableView {
    pub tags: Seq<TagView>,
    pub next_id: u32,
}

impl TagTableView {
    /// The table with no labels.
    pub open spec fn empty() -> TagTableView {
        TagTableView { tags: Seq::empty(), next_id: 1 }
    }

    /// No two labels have the same name, and every identifier is below the
    /// next one to hand out.
    pub open spec fn wf(self) -> bool {
        &&& forall|i: int, j: int|
            0 <= i < j < self.tags.len() ==> (#[trigger] self.tags[i]).name
                != (#[trigger] self.tags[j]).name
        &&& forall|i: int| 0 <= i < self.tags.len() ==> (#[trigger] self.tags[i]).id < self.next_id
    }

    /// A label with this name exists.
    pub open spec fn has(self, name: Seq<char>) -> bool {
        exists|i: int| 0 <= i < self.tags.len() && (#[trigger] self.tags[i]).name == name
    }

    /// The identifier of the label with this name, if there is one.
    pub open spec fn id_of(self, name: Seq<char>) -> Option<u32> {
        if self.has(name) {
            Some(
                self.tags[choose|i: int|
                    0 <= i < self.tags.len() && (#[trigger] self.tags[i]).name == name].id,
            )
        } else {
            None
        }
    }

    /// The table with a new label of this name.
    pub open spec fn with(self, name: Seq<char>) -> TagTableView {
        TagTableView {
            tags: self.tags.push(TagView { id: self.next_id, name }),
            next_id: (self.next_id + 1) as u32,
        }
    }

    /// Resolving one name: the label of that name if there is one, else a
    /// new label, unless the identifiers have run out.
    pub open spec fn resolve_one(self, name: Seq<char>) -> (TagTableView, Option<TagView>) {
        match self.id_of(name) {
            Some(id) => (self, Some(TagView { id, name })),
            None => if self.next_id == u32::MAX {
                (self, None)
            } else {
                (self.with(name), Some(TagView { id: self.next_id, name }))
            },
        }
    }

    /// Resolving names one after the other: the table afterwards, and the
    /// labels in the order of the names, or none if the identifiers ran out
    /// on the way.
    pub open spec fn resolve_all(self, names: Seq<Seq<char>>) -> (TagTableView, Option<Seq<TagView>>)
        decreases names.len(),
    {
        if names.len() == 0 {
            (self, Some(Seq::empty()))
        } else {
            let (table, front) = self.resolve_all(names.drop_last());
            match front {
                None => (table, None),
                Some(tags) => {
                    let (next, tag) = table.resolve_one(names.last());
                    match tag {
                        None => (next, None),
                        Some(tag) => (next, Some(tags.push(tag))),
                    }
                },
            }
        }
    }
}

/// Once the identifiers have run out, resolving more names changes nothing.
pub proof fn lemma_resolve_all_stuck(table: TagTableView, names: Seq<Seq<char>>, n: int)
    requires
        0 <= n <= names.len(),
        table.resolve_all(names.take(n)).1 is None,
    ensures
        table.resolve_all(names) == table.resolve_all(names.take(n)),
    decreases names.len() - n,
{
    if n < names.len() {
        assert(names.take(n + 1).drop_last() =~= names.take(n));
        lemma_resolve_all_stuck(table, names, n + 1);
    } else {
        assert(names.take(n) =~= names);
    }
}

/// Resolving keeps the table well formed.
pub proof fn lemma_resolve_all_keeps_wf(table: TagTableView, names: Seq<Seq<char>>)
    requires
        table.wf(),
    ensures
        table.resolve_all(names).0.wf(),
    decreases names.len(),
{
    if names.len() > 0 {
        lemma_resolve_all_keeps_wf(table, names.drop_last());
    }
}

/// The in-memory table of labels.
#[derive(Debug)]
pub struct TagTable {
    tags: Vec<Tag>,
    next_id: u32,
}

impl View for TagTable {
    type V = TagTableView;

    closed spec fn view(&self) -> TagTableView {
        TagTableView { tags: tags_view(self.tags@), next_id: self.next_id }
    }
}

impl TagTable {
    /// A table with no labels.
    pub fn new() -> (table: TagTable)
        ensures
            table@ == TagTableView::empty(),
            table@.wf(),
    {
        let table = TagTable { tags: Vec::new(), next_id: 1 };
        assert(table@.tags =~= Seq::empty());
        table
    }

    /// A table with no labels whose labels will be numbered from
    /// `first_id` upwards.
    pub fn starting_at(first_id: u32) -> (table: TagTable)
        ensures
            table@ == (TagTableView { tags: Seq::empty(), next_id: first_id }),
            table@.wf(),
    {
        let table = TagTable { tags: Vec::new(), next_id: first_id };
        assert(table@.tags =~= Seq::empty());
        table
    }

    /// The identifier of the label with this name, if there is one.
    pub fn lookup(&self, name: &str) -> (id: Option<u32>)
        requires
            self@.wf(),
        ensures
            id == self@.id_of(name@),
    {
        let wanted = name.to_owned();
        let mut i: usize = 0;
        while i < self.tags.len()
            invariant
                i <= self.tags.len(),
                self@.wf(),
                wanted@ == name@,
                forall|k: int| 0 <= k < i ==> (#[trigger] self@.tags[k]).name != name@,
            decreases self.tags.len() - i,
        {
            if self.tags[i].name == wanted {
                proof {
                    assert(self@.tags[i as int].name == name@);
                    let k = choose|k: int|
                        0 <= k < self@.tags.len() && (#[trigger] self@.tags[k]).name == name@;
                    if k != i {
                        assert(self@.tags[k].name != self@.tags[i as int].name);
                    }
                }
                return Some(self.tags[i].id);
            }
            i += 1;
        }
        None
    }

    /// Adds a label with this name. Fails if the name is taken or the
    /// identifiers have run out; then nothing changes.
    pub fn insert(&mut self, name: &str) -> (res: Result<(), StorageFault>)
        requires
            old(self)@.wf(),
        ensures
            final(self)@.wf(),
            match res {
                Ok(()) => !old(self)@.has(name@) && old(self)@.next_id < u32::MAX && final(self)@
                    == old(self)@.with(name@),
                Err(fault) => final(self)@ == old(self)@ && if old(self)@.has(name@) {
                    fault == StorageFault::DuplicateKey
                } else {
                    old(self)@.next_id == u32::MAX && fault == StorageFault::RowIdsExhausted
                },
            },
    {
        if self.lookup(name).is_some() {
            return Err(StorageFault::DuplicateKey);
        }
        if self.next_id == u32::MAX {
            return Err(StorageFault::RowIdsExhausted);
        }
        let ghost before = self@;
        self.tags.push(Tag { id: self.next_id, name: name.to_owned() });
        self.next_id = self.next_id + 1;
        assert(self@.tags =~= before.tags.push(TagView { id: before.next_id, name: name@ }));
        Ok(())
    }

    /// Number of labels in the table.
    pub fn len(&self) -> (n: usize)
        ensures
            n == self@.tags.len(),
    {
        self.tags.len()
    }
}

/// How far a resolution is from its end: three steps at most for each name
/// still to resolve.
pub open spec fn steps_left(state: TagResolverView, step: TagStepView) -> int {
    3 * (state.names.len() - state.resolved.len()) + match step {
        TagStepView::Lookup { .. } => if state.inserted {
            0int
        } else {
            2int
        },
        TagStepView::Insert { .. } => 1int,
        TagStepView::Done { .. } => 0int,
        TagStepView::Failed => 0int,
    }
}

/// A resolution in progress against a table is where resolving the first
/// names one by one would be.
pub open spec fn on_track(
    start: TagTableView,
    table: TagTableView,
    state: TagResolverView,
    step: TagStepView,
) -> bool {
    let done = state.resolved.len() as int;
    let base = start.resolve_all(state.names.take(done));
    &&& done <= state.names.len()
    &&& base.1 == Some(state.resolved)
    &&& match step {
        TagStepView::Lookup { name } => {
            &&& done < state.names.len()
            &&& name == state.current()
            &&& if state.inserted {
                &&& !base.0.has(name)
                &&& base.0.next_id < u32::MAX
                &&& table == base.0.with(name)
            } else {
                table == base.0
            }
        },
        TagStepView::Insert { name } => {
            &&& done < state.names.len()
            &&& name == state.current()
            &&& state.inserted
            &&& !base.0.has(name)
            &&& table == base.0
        },
        TagStepView::Done { tags } => {
            &&& done == state.names.len()
            &&& tags == state.resolved
            &&& table == base.0
        },
        TagStepView::Failed => false,
    }
}

/// A label that was just inserted is found under its identifier.
pub proof fn lemma_inserted_is_found(table: TagTableView, name: Seq<char>)
    requires
        table.wf(),
        !table.has(name),
        table.next_id < u32::MAX,
    ensures
        table.with(name).wf(),
        table.with(name).id_of(name) == Some(table.next_id),
{
    let after = table.with(name);
    assert(after.tags[table.tags.len() as int].name == name);
    let k = choose|k: int| 0 <= k < after.tags.len() && (#[trigger] after.tags[k]).name == name;
    if k < table.tags.len() {
        assert(table.tags[k].name == name);
    }
}

impl TagTable {
    /// Resolves each name to its label, creating the labels that do not
    /// exist yet: a name is looked up, and if it is missing, inserted and
    /// looked up again. Labels are created one by one; if the identifiers
    /// run out on the way, the labels created so far stay.
    pub fn get_or_create_tags_by_names(&mut self, tag_names: &Vec<String>) -> (res: Result<
        Vec<Tag>,
        ServerError,
    >)
        requires
            old(self)@.wf(),
        ensures
            final(self)@.wf(),
            final(self)@ == old(self)@.resolve_all(texts_view(tag_names@)).0,
            match res {
                Ok(tags) => old(self)@.resolve_all(texts_view(tag_names@)).1 == Some(
                    tags_view(tags@),
                ),
                Err(e) => old(self)@.resolve_all(texts_view(tag_names@)).1 is None && e == (
                ServerError::Storage { fault: StorageFault::RowIdsExhausted }),
            },
    {
        let ghost start = self@;
        let ghost names = texts_view(tag_names@);
        let copy = tag_names.clone();
        assert(texts_view(copy@) =~= names);
        let (mut resolver, mut step) = TagResolver::start(copy);
        assert(names.take(0) =~= Seq::<Seq<char>>::empty());
        loop
            invariant
                start == old(self)@,
                start.wf(),
                self@.wf(),
                names == texts_view(tag_names@),
                resolver@.names == names,
                on_track(start, self@, resolver@, step@),
            decreases steps_left(resolver@, step@),
        {
            let ghost state = resolver@;
            let ghost done = state.resolved.len() as int;
            let ghost base = start.resolve_all(names.take(done));
            proof {
                lemma_resolve_all_keeps_wf(start, names.take(done));
                if done < names.len() {
                    assert(names.take(done + 1).drop_last() =~= names.take(done));
                    assert(names.take(done + 1).last() == names[done]);
                }
            }
            let reply = match step {
                TagStep::Lookup { name } => {
                    proof {
                        if state.inserted {
                            lemma_inserted_is_found(base.0, name@);
                        }
                    }
                    match self.lookup(name.as_str()) {
                        Some(id) => TagReply::Found { id },
                        None => TagReply::Missing,
                    }
                },
                TagStep::Insert { name } => {
                    match self.insert(name.as_str()) {
                        Ok(()) => TagReply::Inserted,
                        Err(_) => {
                            proof {
                                lemma_resolve_all_stuck(start, names, done + 1);
                            }
                            return Err(
                                ServerError::Storage { fault: StorageFault::RowIdsExhausted },
                            );
                        },
                    }
                },
                TagStep::Done { tags } => {
                    assert(names.take(done) =~= names);
                    return Ok(tags);
                },
                TagStep::Failed => {
                    return Err(ServerError::Storage { fault: StorageFault::Backend });
                },
            };
            step = resolver.next(reply);
        }
    }
}

/// A new label changes the identifier of no label that exists.
pub proof fn lemma_with_keeps_ids(table: TagTableView, added: Seq<char>, name: Seq<char>)
    requires
        table.wf(),
        !table.has(added),
        table.next_id < u32::MAX,
        table.has(name),
    ensures
        table.with(added).has(name),
        table.with(added).id_of(name) == table.id_of(name),
{
    let after = table.with(added);
    lemma_inserted_is_found(table, added);
    let i = choose|i: int| 0 <= i < table.tags.len() && (#[trigger] table.tags[i]).name == name;
    assert(after.tags[i].name == name);
    let k = choose|k: int| 0 <= k < after.tags.len() && (#[trigger] after.tags[k]).name == name;
    if k != i {
        if k < i {
            assert(after.tags[k].name != after.tags[i].name);
        } else {
            assert(after.tags[i].name != after.tags[k].name);
        }
    }
}

/// Resolving names changes the identifier of no label that exists.
pub proof fn law_existing_labels_keep_their_ids(table: TagTableView, names: Seq<Seq<char>>, name: Seq<char>)
    requires
        table.wf(),
        table.has(name),
    ensures
        table.resolve_all(names).0.has(name),
        table.resolve_all(names).0.id_of(name) == table.id_of(name),
    decreases names.len(),
{
    if names.len() > 0 {
        law_existing_labels_keep_their_ids(table, names.drop_last(), name);
        lemma_resolve_all_keeps_wf(table, names.drop_last());
        let (middle, front) = table.resolve_all(names.drop_last());
        if front is Some && middle.id_of(names.last()) is None && middle.next_id < u32::MAX {
            lemma_with_keeps_ids(middle, names.last(), name);
        }
    }
}

/// After names have been resolved, each name has a label in the table, and
/// the labels returned are those labels, in the order of the names.
pub proof fn law_names_resolve_to_their_labels(table: TagTableView, names: Seq<Seq<char>>, i: int)
    requires
        table.wf(),
        table.resolve_all(names).1 is Some,
        0 <= i < names.len(),
    ensures
        ({
            let (after, tags) = table.resolve_all(names);
            &&& tags->Some_0.len() == names.len()
            &&& tags->Some_0[i].name == names[i]
            &&& after.id_of(names[i]) == Some(tags->Some_0[i].id)
        }),
    decreases names.len(),
{
    let front_names = names.drop_last();
    let (middle, front) = table.resolve_all(front_names);
    lemma_resolve_all_keeps_wf(table, front_names);
    lemma_resolve_all_lengths(table, front_names);
    let (after, tag) = middle.resolve_one(names.last());
    if i < names.len() - 1 {
        law_names_resolve_to_their_labels(table, front_names, i);
        if middle.id_of(names.last()) is None {
            lemma_with_keeps_ids(middle, names.last(), names[i]);
        }
    } else if middle.id_of(names.last()) is None {
        lemma_inserted_is_found(middle, names.last());
    }
}

/// Resolving returns one label per name.
pub proof fn lemma_resolve_all_lengths(table: TagTableView, names: Seq<Seq<char>>)
    ensures
        table.resolve_all(names).1 matches Some(tags) ==> tags.len() == names.len(),
    decreases names.len(),
{
    if names.len() > 0 {
        lemma_resolve_all_lengths(table, names.drop_last());
    }
}

} // verus!
