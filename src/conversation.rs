//! The conversation model: items in arrival order, keyed by id, whose
//! content transcripts grow by deltas and are settled by a final value.

use vstd::prelude::*;

verus! {

/// Kind of a content part.
#[derive(Debug, Clone, Copy, PartialEq, Eq, Structural)]
pub enum ConversationItemContentType {
    Text,
    Audio,
    InputText,
    InputAudio,
}

/// Who produced an item.
#[derive(Debug, Clone, Copy, PartialEq, Eq, Structural)]
pub enum ConversationItemRole {
    User,
    Assistant,
    System,
}

/// Where an item stands.
#[derive(Debug, Clone, Copy, PartialEq, Eq, Structural)]
pub enum ConversationItemStatus {
    Completed,
    InProgress,
    Failed,
    InComplete,
}

/// Why an item could not be built from its wire fields.
#[derive(Debug, Clone, Copy, PartialEq, Eq, Structural)]
pub enum ItemError {
    UnknownContentType,
    UnknownRole,
    UnknownStatus,
}

pub open spec fn content_type_of(s: Seq<char>) -> Option<ConversationItemContentType> {
    if s == "text"@ {
        Some(ConversationItemContentType::Text)
    } else if s == "audio"@ {
        Some(ConversationItemContentType::Audio)
    } else if s == "input_text"@ {
        Some(ConversationItemContentType::InputText)
    } else if s == "input_audio"@ {
        Some(ConversationItemContentType::InputAudio)
    } else {
        None
    }
}

pub open spec fn role_of(s: Seq<char>) -> Option<ConversationItemRole> {
    if s == "user"@ {
        Some(ConversationItemRole::User)
    } else if s == "assistant"@ {
        Some(ConversationItemRole::Assistant)
    } else if s == "system"@ {
        Some(ConversationItemRole::System)
    } else {
        None
    }
}

pub open spec fn status_of(s: Seq<char>) -> Option<ConversationItemStatus> {
    if s == "completed"@ {
        Some(ConversationItemStatus::Completed)
    } else if s == "in_progress"@ {
        Some(ConversationItemStatus::InProgress)
    } else if s == "incomplete"@ {
        Some(ConversationItemStatus::InComplete)
    } else if s == "failed"@ {
        Some(ConversationItemStatus::Failed)
    } else {
        None
    }
}

pub open spec fn role_name(r: ConversationItemRole) -> Seq<char> {
    match r {
        ConversationItemRole::User => "User"@,
        ConversationItemRole::Assistant => "Assistant"@,
        ConversationItemRole::System => "System"@,
    }
}

pub open spec fn status_marker(s: ConversationItemStatus) -> Seq<char> {
    match s {
        ConversationItemStatus::Completed => ""@,
        ConversationItemStatus::InProgress => "…"@,
        ConversationItemStatus::Failed => "<failed>"@,
        ConversationItemStatus::InComplete => "<incomplete>"@,
    }
}

/// Whether two strings hold the same characters.
pub fn same_text(a: &str, b: &str) -> (r: bool)
    ensures
        r == (a@ == b@),
{
    a.to_owned() == b.to_owned()
}

impl ConversationItemContentType {
    /// Reads a wire content type (`text`, `audio`, `input_text`, `input_audio`).
    pub fn parse(s: &str) -> (r: Option<ConversationItemContentType>)
        ensures
            r == content_type_of(s@),
    {
        if same_text(s, "text") {
            Some(ConversationItemContentType::Text)
        } else if same_text(s, "audio") {
            Some(ConversationItemContentType::Audio)
        } else if same_text(s, "input_text") {
            Some(ConversationItemContentType::InputText)
        } else if same_text(s, "input_audio") {
            Some(ConversationItemContentType::InputAudio)
        } else {
            None
        }
    }
}

impl ConversationItemRole {
    /// Reads a wire role (`user`, `assistant`, `system`).
    pub fn parse(s: &str) -> (r: Option<ConversationItemRole>)
        ensures
            r == role_of(s@),
    {
        if same_text(s, "user") {
            Some(ConversationItemRole::User)
        } else if same_text(s, "assistant") {
            Some(ConversationItemRole::Assistant)
        } else if same_text(s, "system") {
            Some(ConversationItemRole::System)
        } else {
            None
        }
    }

    /// The role's display name.
    pub fn name(&self) -> (r: &'static str)
        ensures
            r@ == role_name(*self),
    {
        match self {
            ConversationItemRole::User => "User",
            ConversationItemRole::Assistant => "Assistant",
            ConversationItemRole::System => "System",
        }
    }
}

impl ConversationItemStatus {
    /// Reads a wire status (`completed`, `in_progress`, `incomplete`, `failed`).
    pub fn parse(s: &str) -> (r: Option<ConversationItemStatus>)
        ensures
            r == status_of(s@),
    {
        if same_text(s, "completed") {
            Some(ConversationItemStatus::Completed)
        } else if same_text(s, "in_progress") {
            Some(ConversationItemStatus::InProgress)
        } else if same_text(s, "incomplete") {
            Some(ConversationItemStatus::InComplete)
        } else if same_text(s, "failed") {
            Some(ConversationItemStatus::Failed)
        } else {
            None
        }
    }

    /// The marker shown after an item's text.
    pub fn marker(&self) -> (r: &'static str)
        ensures
            r@ == status_marker(*self),
    {
        match self {
            ConversationItemStatus::Completed => "",
            ConversationItemStatus::InProgress => "…",
            ConversationItemStatus::Failed => "<failed>",
            ConversationItemStatus::InComplete => "<incomplete>",
        }
    }
}

pub open spec fn text_view(s: Option<String>) -> Option<Seq<char>> {
    match s {
        Some(t) => Some(t@),
        None => None,
    }
}

/// Mathematical view of a content part.
pub ghost struct ContentView {
    pub kind: ConversationItemContentType,
    pub text: Option<Seq<char>>,
    pub audio: Option<Seq<char>>,
    pub transcript: Option<Seq<char>>,
}

/// Mathematical view of an item.
pub ghost struct ItemView {
    pub id: Seq<char>,
    pub role: ConversationItemRole,
    pub status: ConversationItemStatus,
    pub content: Seq<ContentView>,
}

/// One part of an item's content.
pub struct ConversationItemContent {
    pub content_type: ConversationItemContentType,
    pub text: Option<String>,
    pub audio: Option<String>,
    pub transcript: Option<String>,
}

impl View for ConversationItemContent {
    type V = ContentView;

    open spec fn view(&self) -> ContentView {
        ContentView {
            kind: self.content_type,
            text: text_view(self.text),
            audio: text_view(self.audio),
            transcript: text_view(self.transcript),
        }
    }
}

impl ConversationItemContent {
    /// Builds a content part from its wire fields; an unknown content type
    /// is rejected.
    pub fn new(content_type: String, text: Option<String>, audio: Option<String>, transcript: Option<String>) -> (r:
        Result<ConversationItemContent, ItemError>)
        ensures
            match content_type_of(content_type@) {
                None => r == Err::<ConversationItemContent, ItemError>(ItemError::UnknownContentType),
                Some(kind) => r is Ok && r->Ok_0@ == (ContentView {
                    kind,
                    text: text_view(text),
                    audio: text_view(audio),
                    transcript: text_view(transcript),
                }),
            },
    {
        match ConversationItemContentType::parse(content_type.as_str()) {
            None => Err(ItemError::UnknownContentType),
            Some(kind) => Ok(ConversationItemContent { content_type: kind, text, audio, transcript }),
        }
    }
}

pub open spec fn content_views(c: Seq<ConversationItemContent>) -> Seq<ContentView> {
    c.map_values(|p: ConversationItemContent| p@)
}

/// A transcript, or nothing where a part has none.
pub open spec fn transcript_or_empty(c: ContentView) -> Seq<char> {
    match c.transcript {
        Some(t) => t,
        None => Seq::empty(),
    }
}

/// The transcripts of all parts, in order, joined.
pub open spec fn joined_transcript(c: Seq<ContentView>) -> Seq<char>
    decreases c.len(),
{
    if c.len() == 0 {
        Seq::empty()
    } else {
        joined_transcript(c.drop_last()) + transcript_or_empty(c.last())
    }
}

/// One turn of the conversation.
pub struct ConversationItem {
    pub item_id: String,
    pub role: ConversationItemRole,
    pub status: ConversationItemStatus,
    pub content: Vec<ConversationItemContent>,
}

impl View for ConversationItem {
    type V = ItemView;

    open spec fn view(&self) -> ItemView {
        ItemView { id: self.item_id@, role: self.role, status: self.status, content: content_views(self.content@) }
    }
}

impl ConversationItem {
    /// Builds an item from its wire fields; an unknown role or status is
    /// rejected, the role being checked first.
    pub fn new(item_id: String, role: String, status: String, content: Vec<ConversationItemContent>) -> (r: Result<
        ConversationItem,
        ItemError,
    >)
        ensures
            match (role_of(role@), status_of(status@)) {
                (None, _) => r == Err::<ConversationItem, ItemError>(ItemError::UnknownRole),
                (Some(_), None) => r == Err::<ConversationItem, ItemError>(ItemError::UnknownStatus),
                (Some(ro), Some(st)) => r is Ok && r->Ok_0@ == (ItemView {
                    id: item_id@,
                    role: ro,
                    status: st,
                    content: content_views(content@),
                }),
            },
    {
        let role = match ConversationItemRole::parse(role.as_str()) {
            Some(r) => r,
            None => return Err(ItemError::UnknownRole),
        };
        let status = match ConversationItemStatus::parse(status.as_str()) {
            Some(s) => s,
            None => return Err(ItemError::UnknownStatus),
        };
        Ok(ConversationItem { item_id, role, status, content })
    }

    /// The transcripts of all content parts joined in order; `None` when
    /// that text is empty.
    pub fn get_content_transcript(&self) -> (r: Option<String>)
        ensures
            joined_transcript(self@.content).len() == 0 ==> r is None,
            joined_transcript(self@.content).len() > 0 ==> r is Some && r->Some_0@ == joined_transcript(self@.content),
    {
        let mut transcript = String::new();
        let mut i: usize = 0;
        while i < self.content.len()
            invariant
                i <= self.content@.len(),
                transcript@ == joined_transcript(self@.content.take(i as int)),
            decreases self.content@.len() - i,
        {
            proof {
                assert(self@.content.take(i + 1).drop_last() == self@.content.take(i as int));
            }
            match &self.content[i].transcript {
                Some(t) => transcript.append(t.as_str()),
                None => {},
            }
            i = i + 1;
        }
        proof {
            assert(self@.content.take(self.content@.len() as int) == self@.content);
        }
        if transcript.as_str().unicode_len() == 0 {
            None
        } else {
            Some(transcript)
        }
    }

    /// Appends a transcript delta to part `index`, or adds a text part
    /// holding it when there is no such part.
    pub fn append_transcript(&mut self, index: usize, delta: &str)
        ensures
            final(self)@ == with_delta(old(self)@, index as nat, delta@),
    {
        if index < self.content.len() {
            let mut t = match &self.content[index].transcript {
                Some(t) => t.clone(),
                None => String::new(),
            };
            t.append(delta);
            self.content[index].transcript = Some(t);
            proof {
                assert(self@.content =~= with_delta(old(self)@, index as nat, delta@).content);
            }
        } else {
            let part = ConversationItemContent {
                content_type: ConversationItemContentType::Text,
                text: None,
                audio: None,
                transcript: Some(delta.to_owned()),
            };
            self.content.push(part);
            proof {
                assert(self@.content =~= with_delta(old(self)@, index as nat, delta@).content);
            }
        }
    }

    /// Replaces the transcript of part `index` with its final value; an
    /// index past the last part changes nothing.
    pub fn set_transcript(&mut self, index: usize, transcript: &str)
        ensures
            final(self)@ == with_final_transcript(old(self)@, index as nat, transcript@),
    {
        if index < self.content.len() {
            self.content[index].transcript = Some(transcript.to_owned());
            proof {
                assert(self@.content =~= with_final_transcript(old(self)@, index as nat, transcript@).content);
            }
        }
    }
}

/// Index of the last item with id `id`, or -1.
pub open spec fn index_of(items: Seq<ItemView>, id: Seq<char>) -> int
    decreases items.len(),
{
    if items.len() == 0 {
        -1
    } else if items.last().id == id {
        items.len() - 1
    } else {
        index_of(items.drop_last(), id)
    }
}

/// The items by id.
pub open spec fn items_map(items: Seq<ItemView>) -> Map<Seq<char>, ItemView> {
    Map::new(|k: Seq<char>| index_of(items, k) >= 0, |k: Seq<char>| items[index_of(items, k)])
}

proof fn lemma_index_of_bounds(items: Seq<ItemView>, id: Seq<char>)
    ensures
        -1 <= index_of(items, id) < items.len(),
        index_of(items, id) >= 0 ==> items[index_of(items, id)].id == id,
        index_of(items, id) == -1 ==> forall|j: int| 0 <= j < items.len() ==> items[j].id != id,
    decreases items.len(),
{
    if items.len() > 0 && items.last().id != id {
        lemma_index_of_bounds(items.drop_last(), id);
        assert forall|j: int| 0 <= j < items.len() - 1 implies items[j] == items.drop_last()[j] by {}
    }
}

/// With no match at or after `j`, the search result is that of the prefix.
proof fn lemma_index_of_prefix(items: Seq<ItemView>, id: Seq<char>, j: int)
    requires
        0 <= j <= items.len(),
        forall|k: int| j <= k < items.len() ==> items[k].id != id,
    ensures
        index_of(items, id) == index_of(items.take(j), id),
    decreases items.len(),
{
    if items.len() > j {
        assert(items.drop_last().take(j) == items.take(j));
        lemma_index_of_prefix(items.drop_last(), id, j);
    } else {
        assert(items.take(j) == items);
    }
}

/// Replacing an item by one with the same id moves no search result.
proof fn lemma_index_of_update(items: Seq<ItemView>, i: int, x: ItemView, k: Seq<char>)
    requires
        0 <= i < items.len(),
        x.id == items[i].id,
    ensures
        index_of(items.update(i, x), k) == index_of(items, k),
    decreases items.len(),
{
    let u = items.update(i, x);
    if i < items.len() - 1 {
        assert(u.drop_last() == items.drop_last().update(i, x));
        lemma_index_of_update(items.drop_last(), i, x, k);
    } else {
        assert(u.drop_last() == items.drop_last());
    }
}

/// Replacing the item found for an id by another with that id replaces that
/// entry of the map and no other.
proof fn lemma_map_after_update(items: Seq<ItemView>, i: int, x: ItemView)
    requires
        0 <= i < items.len(),
        x.id == items[i].id,
        i == index_of(items, x.id),
    ensures
        items_map(items.update(i, x)) == items_map(items).insert(x.id, x),
{
    let u = items.update(i, x);
    assert forall|k: Seq<char>| #[trigger] items_map(u).dom().contains(k) == items_map(items).insert(x.id, x).dom().contains(k)
        && (items_map(u).dom().contains(k) ==> items_map(u)[k] == items_map(items).insert(x.id, x)[k]) by {
        lemma_index_of_update(items, i, x, k);
        lemma_index_of_bounds(items, k);
    }
    assert(items_map(u) =~= items_map(items).insert(x.id, x));
}

/// Position of the last entry `x` of `s`, or -1.
pub open spec fn position_of<A>(s: Seq<A>, x: A) -> int
    decreases s.len(),
{
    if s.len() == 0 {
        -1
    } else if s.last() == x {
        s.len() - 1
    } else {
        position_of(s.drop_last(), x)
    }
}

/// The order after adding `id` right after the last entry `previous`, or at
/// the end when there is no such entry.
pub open spec fn insert_after(order: Seq<Seq<char>>, id: Seq<char>, previous: Option<Seq<char>>) -> Seq<Seq<char>> {
    match previous {
        Some(p) => if position_of(order, p) >= 0 {
            order.insert(position_of(order, p) + 1, id)
        } else {
            order.push(id)
        },
        None => order.push(id),
    }
}

proof fn lemma_position_prefix<A>(s: Seq<A>, x: A, j: int)
    requires
        0 <= j <= s.len(),
        forall|k: int| j <= k < s.len() ==> s[k] != x,
    ensures
        position_of(s, x) == position_of(s.take(j), x),
    decreases s.len(),
{
    if s.len() > j {
        assert(s.drop_last().take(j) == s.take(j));
        lemma_position_prefix(s.drop_last(), x, j);
    } else {
        assert(s.take(j) == s);
    }
}

proof fn lemma_insert_contains<A>(s: Seq<A>, i: int, x: A)
    requires
        0 <= i <= s.len(),
    ensures
        forall|k: A| s.insert(i, x).contains(k) <==> (s.contains(k) || k == x),
{
    let t = s.insert(i, x);
    assert forall|k: A| t.contains(k) <==> (s.contains(k) || k == x) by {
        if s.contains(k) {
            let j = choose|j: int| 0 <= j < s.len() && s[j] == k;
            if j < i {
                assert(t[j] == k);
            } else {
                assert(t[j + 1] == k);
            }
        }
        if t.contains(k) {
            let j = choose|j: int| 0 <= j < t.len() && t[j] == k;
            if j < i {
                assert(s[j] == k);
            } else if j > i {
                assert(s[j - 1] == k);
            }
        }
        if k == x {
            assert(t[i] == k);
        }
    }
}

/// Mathematical view of the tracker: ids in arrival order, and items by id.
pub ghost struct TrackerView {
    pub order: Seq<Seq<char>>,
    pub items: Map<Seq<char>, ItemView>,
}

/// Every id in the order has an item, and every item's id is in the order.
pub open spec fn well_formed(v: TrackerView) -> bool {
    forall|k: Seq<char>| v.order.contains(k) <==> v.items.dom().contains(k)
}

/// What a transcript delta does to an item: appended to the addressed part's
/// transcript, or, past the last part, a new text part holding the delta.
pub open spec fn with_delta(it: ItemView, index: nat, delta: Seq<char>) -> ItemView {
    if index < it.content.len() {
        ItemView {
            content: it.content.update(
                index as int,
                ContentView {
                    transcript: Some(transcript_or_empty(it.content[index as int]) + delta),
                    ..it.content[index as int]
                },
            ),
            ..it
        }
    } else {
        ItemView {
            content: it.content.push(
                ContentView {
                    kind: ConversationItemContentType::Text,
                    text: None,
                    audio: None,
                    transcript: Some(delta),
                },
            ),
            ..it
        }
    }
}

/// What a final transcript does to an item: it replaces the addressed
/// part's transcript; an index past the last part changes nothing.
pub open spec fn with_final_transcript(it: ItemView, index: nat, transcript: Seq<char>) -> ItemView {
    if index < it.content.len() {
        ItemView {
            content: it.content.update(
                index as int,
                ContentView { transcript: Some(transcript), ..it.content[index as int] },
            ),
            ..it
        }
    } else {
        it
    }
}

pub open spec fn with_status(it: ItemView, status: ConversationItemStatus) -> ItemView {
    ItemView { status, ..it }
}

/// The items of a conversation in the order they arrived.
pub struct ConversationTracker {
    item_order: Vec<String>,
    items: Vec<ConversationItem>,
}

/// Adding one id to both the order and the items keeps them in step.
proof fn lemma_added_well_formed(before: TrackerView, after: TrackerView, id: Seq<char>)
    requires
        forall|k: Seq<char>| after.order.contains(k) <==> (before.order.contains(k) || k == id),
        after.items.dom() == before.items.dom().insert(id),
    ensures
        well_formed(before) ==> well_formed(after),
{
}

impl View for ConversationTracker {
    type V = TrackerView;

    closed spec fn view(&self) -> TrackerView {
        TrackerView {
            order: self.item_order@.map_values(|s: String| s@),
            items: items_map(self.items@.map_values(|i: ConversationItem| i@)),
        }
    }
}

impl ConversationTracker {
    closed spec fn item_views(&self) -> Seq<ItemView> {
        self.items@.map_values(|i: ConversationItem| i@)
    }

    /// An empty conversation.
    pub fn new() -> (r: ConversationTracker)
        ensures
            r@.order == Seq::<Seq<char>>::empty(),
            r@.items == Map::<Seq<char>, ItemView>::empty(),
            well_formed(r@),
    {
        let r = ConversationTracker { item_order: Vec::new(), items: Vec::new() };
        assert(r@.order =~= Seq::<Seq<char>>::empty());
        assert(r@.items =~= Map::<Seq<char>, ItemView>::empty());
        r
    }

    /// Index in `items` of the item with id `item_id`.
    fn find(&self, item_id: &String) -> (r: Option<usize>)
        ensures
            match r {
                Some(i) => i < self.items@.len() && i as int == index_of(self.item_views(), item_id@),
                None => index_of(self.item_views(), item_id@) == -1,
            },
    {
        let ghost v = self.item_views();
        let mut j: usize = self.items.len();
        while j > 0
            invariant
                j <= self.items@.len(),
                v == self.item_views(),
                forall|k: int| j <= k < v.len() ==> v[k].id != item_id@,
            decreases j,
        {
            if self.items[j - 1].item_id == *item_id {
                proof {
                    lemma_index_of_prefix(v, item_id@, j as int);
                    assert(v.take(j as int).last() == v[j - 1]);
                }
                return Some(j - 1);
            }
            j = j - 1;
        }
        proof {
            lemma_index_of_prefix(v, item_id@, 0);
        }
        None
    }

    /// Makes `item` the item for its id, leaving the order alone.
    fn put_item(&mut self, item: ConversationItem)
        ensures
            final(self).item_order == old(self).item_order,
            final(self)@.items == old(self)@.items.insert(item.item_id@, item@),
    {
        let ghost v = self.item_views();
        let ghost id = item.item_id@;
        let ghost iv = item@;
        match self.find(&item.item_id) {
            Some(i) => {
                proof {
                    lemma_index_of_bounds(v, id);
                }
                self.items.set(i, item);
                proof {
                    lemma_map_after_update(v, i as int, iv);
                    assert(self.item_views() == v.update(i as int, iv));
                }
            },
            None => {
                self.items.push(item);
                proof {
                    assert(self.item_views() == v.push(iv));
                    assert(self.item_views().drop_last() == v);
                    assert forall|k: Seq<char>| #[trigger] items_map(self.item_views()).dom().contains(k)
                        == items_map(v).insert(id, iv).dom().contains(k)
                        && (items_map(self.item_views()).dom().contains(k) ==>
                            items_map(self.item_views())[k] == items_map(v).insert(id, iv)[k]) by {
                        lemma_index_of_bounds(v, k);
                    }
                    assert(items_map(self.item_views()) =~= items_map(v).insert(id, iv));
                }
            },
        }
    }

    /// Appends `item` to the order; it becomes the item for its id.
    pub fn add_item(&mut self, item: ConversationItem)
        ensures
            final(self)@.order == old(self)@.order.push(item.item_id@),
            final(self)@.items == old(self)@.items.insert(item.item_id@, item@),
            well_formed(old(self)@) ==> well_formed(final(self)@),
    {
        let ghost id = item.item_id@;
        let ghost len = self@.order.len();
        self.item_order.push(item.item_id.clone());
        proof {
            assert(self@.order == old(self)@.order.push(id));
        }
        self.put_item(item);
        proof {
            lemma_insert_contains(old(self)@.order, len as int, id);
            assert(old(self)@.order.push(id) == old(self)@.order.insert(len as int, id));
            lemma_added_well_formed(old(self)@, self@, id);
        }
    }

    /// Position in the order of the last entry `item_id`.
    fn order_position(&self, item_id: &str) -> (r: Option<usize>)
        ensures
            match r {
                Some(i) => i < self@.order.len() && i as int == position_of(self@.order, item_id@),
                None => position_of(self@.order, item_id@) == -1,
            },
    {
        let ghost o = self@.order;
        let key = item_id.to_owned();
        let mut j: usize = self.item_order.len();
        while j > 0
            invariant
                j <= self.item_order@.len(),
                o == self@.order,
                o.len() == self.item_order@.len(),
                key@ == item_id@,
                forall|k: int| j <= k < o.len() ==> o[k] != item_id@,
            decreases j,
        {
            assert(o[j - 1] == self.item_order@[j - 1]@);
            if self.item_order[j - 1] == key {
                proof {
                    lemma_position_prefix(o, item_id@, j as int);
                    assert(o.take(j as int).last() == o[j - 1]);
                }
                return Some(j - 1);
            }
            j = j - 1;
        }
        proof {
            lemma_position_prefix(o, item_id@, 0);
        }
        None
    }

    /// Adds `item` right after the entry `previous_item_id` of the order
    /// when that id is there, and at the end otherwise; it becomes the item
    /// for its id.
    pub fn add_item_after(&mut self, item: ConversationItem, previous_item_id: Option<&str>)
        ensures
            final(self)@.order == insert_after(
                old(self)@.order,
                item.item_id@,
                match previous_item_id {
                    Some(p) => Some(p@),
                    None => None,
                },
            ),
            final(self)@.items == old(self)@.items.insert(item.item_id@, item@),
            well_formed(old(self)@) ==> well_formed(final(self)@),
    {
        let position = match previous_item_id {
            Some(p) => self.order_position(p),
            None => None,
        };
        match position {
            None => self.add_item(item),
            Some(i) => {
                let ghost id = item.item_id@;
                let n = self.item_order.len();
                assert(i < n);
                self.item_order.insert(i + 1, item.item_id.clone());
                proof {
                    assert(self@.order =~= old(self)@.order.insert(i + 1, id));
                }
                self.put_item(item);
                proof {
                    lemma_insert_contains(old(self)@.order, i + 1, id);
                    lemma_added_well_formed(old(self)@, self@, id);
                }
            },
        }
    }

    /// The item for `item_id`, if any.
    pub fn get_item(&self, item_id: &str) -> (r: Option<&ConversationItem>)
        ensures
            match r {
                Some(it) => self@.items.contains_key(item_id@) && it@ == self@.items[item_id@],
                None => !self@.items.contains_key(item_id@),
            },
    {
        let key = item_id.to_owned();
        match self.find(&key) {
            Some(i) => Some(&self.items[i]),
            None => None,
        }
    }

    /// Number of entries in the arrival order.
    pub fn len(&self) -> (r: usize)
        ensures
            r == self@.order.len(),
    {
        self.item_order.len()
    }

    /// The id at position `index` of the arrival order.
    pub fn item_id_at(&self, index: usize) -> (r: &String)
        requires
            index < self@.order.len(),
        ensures
            r@ == self@.order[index as int],
    {
        &self.item_order[index]
    }

    /// Applies a transcript delta to part `index` of item `item_id`; an
    /// unknown item is left alone.
    pub fn update_item_content_transcript(&mut self, item_id: &str, index: usize, transcript_delta: &str)
        ensures
            final(self)@.order == old(self)@.order,
            final(self)@.items == if old(self)@.items.contains_key(item_id@) {
                old(self)@.items.insert(item_id@, with_delta(old(self)@.items[item_id@], index as nat, transcript_delta@))
            } else {
                old(self)@.items
            },
            well_formed(old(self)@) ==> well_formed(final(self)@),
    {
        let ghost v = self.item_views();
        let key = item_id.to_owned();
        if let Some(i) = self.find(&key) {
            proof {
                lemma_index_of_bounds(v, item_id@);
            }
            self.items[i].append_transcript(index, transcript_delta);
            proof {
                lemma_map_after_update(v, i as int, self.items@[i as int]@);
                assert(self.item_views() == v.update(i as int, self.items@[i as int]@));
            }
        }
        proof {
            assert(self@.order == old(self)@.order);
        }
    }

    /// Sets the final transcript of part `index` of item `item_id`.
    pub fn item_content_transcript_done(&mut self, item_id: &str, index: usize, transcript: &str)
        ensures
            final(self)@.order == old(self)@.order,
            final(self)@.items == if old(self)@.items.contains_key(item_id@) {
                old(self)@.items.insert(item_id@, with_final_transcript(old(self)@.items[item_id@], index as nat, transcript@))
            } else {
                old(self)@.items
            },
            well_formed(old(self)@) ==> well_formed(final(self)@),
    {
        let ghost v = self.item_views();
        let key = item_id.to_owned();
        if let Some(i) = self.find(&key) {
            proof {
                lemma_index_of_bounds(v, item_id@);
            }
            self.items[i].set_transcript(index, transcript);
            proof {
                lemma_map_after_update(v, i as int, self.items@[i as int]@);
                assert(self.item_views() == v.update(i as int, self.items@[i as int]@));
            }
        }
        proof {
            assert(self@.order == old(self)@.order);
        }
    }

    /// Sets the status of item `item_id`.
    pub fn update_item_status(&mut self, item_id: &str, status: ConversationItemStatus)
        ensures
            final(self)@.order == old(self)@.order,
            final(self)@.items == if old(self)@.items.contains_key(item_id@) {
                old(self)@.items.insert(item_id@, with_status(old(self)@.items[item_id@], status))
            } else {
                old(self)@.items
            },
            well_formed(old(self)@) ==> well_formed(final(self)@),
    {
        let ghost v = self.item_views();
        let key = item_id.to_owned();
        if let Some(i) = self.find(&key) {
            proof {
                lemma_index_of_bounds(v, item_id@);
            }
            self.items[i].status = status;
            proof {
                lemma_map_after_update(v, i as int, self.items@[i as int]@);
                assert(self.item_views() == v.update(i as int, self.items@[i as int]@));
            }
        }
        proof {
            assert(self@.order == old(self)@.order);
        }
    }
}

} // verus!
