//! Decoding what upstream sends: pages of a feed, pages of a search, and
//! the state that a server-rendered page embeds.

use crate::decode::{DecodeError, StepView};
use crate::fields::{member_of, member_or_null};
use crate::json::{json_of_text, lemma_values_of, values_of, Json, JsonValue};
use crate::pattern::{first_match_in, Captured, CapturedView, Pattern};
use crate::text::{same_text, view_of};
use crate::types::{
    ApiResults, FromJson, Kind, Paging, PagingView, SearchItem, SearchItemView, TimelineItem,
    TimelineItemView,
};
use vstd::prelude::*;

verus! {

/// Why an element of a listing gave no entry.
#[derive(Debug, Clone)]
pub enum Rejection {
    /// Its payload does not describe an entry; the failure says where.
    Malformed(DecodeError),
    /// Its payload describes an entry of a kind that listings do not
    /// show; the kind is given.
    Unsupported(String),
}

pub enum RejectionView {
    Malformed(Seq<StepView>),
    Unsupported(Seq<char>),
}

impl View for Rejection {
    type V = RejectionView;

    open spec fn view(&self) -> RejectionView {
        match self {
            Rejection::Malformed(e) => RejectionView::Malformed(e@),
            Rejection::Unsupported(kind) => RejectionView::Unsupported(kind@),
        }
    }
}

/// An element that gave no entry: its place among the elements, and why.
#[derive(Debug, Clone)]
pub struct Rejected {
    pub index: usize,
    pub cause: Rejection,
}

impl View for Rejected {
    type V = (nat, RejectionView);

    open spec fn view(&self) -> (nat, RejectionView) {
        (self.index as nat, self.cause@)
    }
}

/// A page together with the account of what was left out of it.
#[derive(Debug, Clone)]
pub struct Report<T> {
    pub page: ApiResults<T>,
    pub rejected: Vec<Rejected>,
}

/// The kinds of entry that a listing keeps: answers and articles.
pub open spec fn allowed_kind(kind: Seq<char>) -> bool {
    !(TimelineItem::kind_of(kind) is Unsupported)
}

/// Where the page stands: what the `paging` member describes, and the
/// zeroed paging where it is missing or describes none.
pub open spec fn paging_of(envelope: JsonValue) -> PagingView {
    match Paging::decoded(member_or_null(envelope, "paging"@)) {
        Ok(p) => p,
        Err(_) => PagingView::empty(),
    }
}

/// The elements of the page: those of the `data` member where it is an
/// array, and none otherwise.
pub open spec fn data_of(envelope: JsonValue) -> Seq<JsonValue> {
    match member_or_null(envelope, "data"@) {
        JsonValue::Array(items) => items,
        _ => Seq::empty(),
    }
}

/// What the payload of an element gives to a listing: the entry it
/// describes, if it describes one and that is of an allowed kind.
pub open spec fn judged(payload: JsonValue) -> Result<TimelineItemView, RejectionView> {
    match TimelineItem::decoded(payload) {
        Ok(item) => if allowed_kind(item.type_) {
            Ok(item)
        } else {
            Err(RejectionView::Unsupported(item.type_))
        },
        Err(path) => Err(RejectionView::Malformed(path)),
    }
}

/// The entries of a feed: for each element in order, the entry that its
/// `target` gives, if it gives one.
pub open spec fn feed_entries(data: Seq<JsonValue>) -> Seq<TimelineItemView>
    decreases data.len(),
{
    if data.len() == 0 {
        Seq::empty()
    } else {
        let before = feed_entries(data.drop_last());
        match judged(member_or_null(data.last(), "target"@)) {
            Ok(item) => before.push(item),
            Err(_) => before,
        }
    }
}

/// The elements of a feed that give no entry, in order, each with its
/// index and the reason.
pub open spec fn feed_rejections(data: Seq<JsonValue>) -> Seq<(nat, RejectionView)>
    decreases data.len(),
{
    if data.len() == 0 {
        Seq::empty()
    } else {
        let before = feed_rejections(data.drop_last());
        match judged(member_or_null(data.last(), "target"@)) {
            Ok(_) => before,
            Err(cause) => before.push(((data.len() - 1) as nat, cause)),
        }
    }
}

/// What one element of a search listing gives: a group of related queries
/// as it came, or what the entry in its `object` gives to a listing.
/// `None` for an element that is neither.
pub open spec fn search_entry(element: JsonValue) -> Option<Result<SearchItemView, RejectionView>> {
    let kind = member_or_null(element, "type"@);
    if kind == JsonValue::Text("relevant_query"@) {
        Some(Ok(SearchItemView::RelevantQuery(member_or_null(element, "query_list"@))))
    } else if kind == JsonValue::Text("search_result"@) {
        match judged(member_or_null(element, "object"@)) {
            Ok(item) => Some(Ok(SearchItemView::SearchResult(item))),
            Err(cause) => Some(Err(cause)),
        }
    } else {
        None
    }
}

/// The entries of a search listing, in the order of its elements.
pub open spec fn search_entries(data: Seq<JsonValue>) -> Seq<SearchItemView>
    decreases data.len(),
{
    if data.len() == 0 {
        Seq::empty()
    } else {
        let before = search_entries(data.drop_last());
        match search_entry(data.last()) {
            Some(Ok(item)) => before.push(item),
            _ => before,
        }
    }
}

/// The results of a search listing that give no entry, in order, each
/// with its index and the reason.
pub open spec fn search_rejections(data: Seq<JsonValue>) -> Seq<(nat, RejectionView)>
    decreases data.len(),
{
    if data.len() == 0 {
        Seq::empty()
    } else {
        let before = search_rejections(data.drop_last());
        match search_entry(data.last()) {
            Some(Err(cause)) => before.push(((data.len() - 1) as nat, cause)),
            _ => before,
        }
    }
}

/// An envelope whose `data` is an empty array gives a page without
/// entries, whatever its paging says.
pub proof fn lemma_empty_data_gives_empty_page(envelope: JsonValue)
    requires
        member_or_null(envelope, "data"@) == JsonValue::Array(Seq::empty()),
    ensures
        feed_entries(data_of(envelope)) == Seq::<TimelineItemView>::empty(),
        search_entries(data_of(envelope)) == Seq::<SearchItemView>::empty(),
{
}

/// A value that is no object gives an empty page with the zeroed paging.
pub proof fn lemma_no_envelope_gives_empty_page(value: JsonValue)
    requires
        !(value is Object),
    ensures
        feed_entries(data_of(value)) == Seq::<TimelineItemView>::empty(),
        search_entries(data_of(value)) == Seq::<SearchItemView>::empty(),
        paging_of(value) == PagingView::empty(),
{
}

/// Where every element gives an entry, the feed has as many entries as
/// elements, each in its element's place.
pub proof fn lemma_all_kept(data: Seq<JsonValue>)
    requires
        forall|i: int|
            0 <= i < data.len() ==> judged(member_or_null(#[trigger] data[i], "target"@)) is Ok,
    ensures
        feed_entries(data).len() == data.len(),
        forall|i: int|
            0 <= i < data.len() ==> Ok::<TimelineItemView, RejectionView>(
                #[trigger] feed_entries(data)[i],
            ) == judged(member_or_null(data[i], "target"@)),
    decreases data.len(),
{
    if data.len() > 0 {
        let front = data.drop_last();
        assert forall|i: int| 0 <= i < front.len() implies judged(
            member_or_null(#[trigger] front[i], "target"@),
        ) is Ok by {
            assert(front[i] == data[i]);
        }
        lemma_all_kept(front);
        assert(data.last() == data[data.len() - 1]);
        assert forall|i: int| 0 <= i < data.len() implies Ok::<TimelineItemView, RejectionView>(
            #[trigger] feed_entries(data)[i],
        ) == judged(member_or_null(data[i], "target"@)) by {
            if i < front.len() {
                assert(front[i] == data[i]);
            }
        }
    }
}

/// One element whose payload does not decode, among elements that all
/// give an entry, costs the feed exactly that one entry: the others come
/// out in their order.
pub proof fn lemma_one_malformed_element(data: Seq<JsonValue>, k: int)
    requires
        0 <= k < data.len(),
        TimelineItem::decoded(member_or_null(data[k], "target"@)) is Err,
        forall|i: int|
            0 <= i < data.len() && i != k ==> judged(
                member_or_null(#[trigger] data[i], "target"@),
            ) is Ok,
    ensures
        feed_entries(data).len() == data.len() - 1,
        feed_entries(data) == feed_entries(data.remove(k)),
    decreases data.len(),
{
    let front = data.drop_last();
    assert(data.last() == data[data.len() - 1]);
    if k == data.len() - 1 {
        assert(data.remove(k) =~= front);
        assert forall|i: int| 0 <= i < front.len() implies judged(
            member_or_null(#[trigger] front[i], "target"@),
        ) is Ok by {
            assert(front[i] == data[i]);
        }
        lemma_all_kept(front);
    } else {
        assert(front[k] == data[k]);
        assert forall|i: int| 0 <= i < front.len() && i != k implies judged(
            member_or_null(#[trigger] front[i], "target"@),
        ) is Ok by {
            assert(front[i] == data[i]);
        }
        lemma_one_malformed_element(front, k);
        let rest = data.remove(k);
        assert(rest.drop_last() =~= front.remove(k));
        assert(rest.last() == data.last());
    }
}

/// An entry of a kind outside the allow-list is left out, however well
/// the rest of its payload decodes.
pub proof fn lemma_other_kinds_are_left_out(payload: JsonValue)
    requires
        TimelineItem::decoded(payload) matches Ok(item) && !allowed_kind(item.type_),
    ensures
        judged(payload) is Err,
{
}

/// Every entry of a feed is of an allowed kind.
pub proof fn lemma_feed_holds_allowed_kinds(data: Seq<JsonValue>)
    ensures
        forall|i: int|
            0 <= i < feed_entries(data).len() ==> allowed_kind(
                (#[trigger] feed_entries(data)[i]).type_,
            ),
    decreases data.len(),
{
    if data.len() > 0 {
        lemma_feed_holds_allowed_kinds(data.drop_last());
    }
}

/// Every result of a search listing is of an allowed kind.
pub proof fn lemma_search_holds_allowed_kinds(data: Seq<JsonValue>)
    ensures
        forall|i: int|
            0 <= i < search_entries(data).len() ==> (#[trigger] search_entries(
                data,
            )[i] matches SearchItemView::SearchResult(item) ==> allowed_kind(item.type_)),
    decreases data.len(),
{
    if data.len() > 0 {
        lemma_search_holds_allowed_kinds(data.drop_last());
    }
}

/// Every element of a feed is accounted for: it gave an entry, or it is
/// among the rejected.
pub proof fn lemma_every_element_is_accounted_for(data: Seq<JsonValue>)
    ensures
        feed_entries(data).len() + feed_rejections(data).len() == data.len(),
    decreases data.len(),
{
    if data.len() > 0 {
        lemma_every_element_is_accounted_for(data.drop_last());
    }
}

/// A page without a state block embeds no state and gives no entity.
pub proof fn lemma_no_block_gives_nothing(html: Seq<char>)
    requires
        embedded_text(html) is None,
    ensures
        embedded_document(html) is None,
        embedded_state(html) is None,
{
}

/// A state that lacks a step of the path to an entity gives no record of
/// any kind.
pub proof fn lemma_missing_path_gives_nothing<T: FromJson>(
    state: JsonValue,
    category: Seq<char>,
    id: Seq<char>,
)
    requires
        entity_in(state, category, id) is Null,
    ensures
        T::described_by(entity_in(state, category, id)) is Err,
{
    T::lemma_null_describes_nothing();
}

/// Decodes the `paging` member of an envelope.
fn paging_in(envelope: &Json) -> (r: Paging)
    ensures
        r@ == paging_of(envelope@),
{
    match member_of(envelope, "paging") {
        Some(p) => match Paging::from_json(p) {
            Ok(paging) => paging,
            Err(_) => Paging::default(),
        },
        None => Paging::default(),
    }
}

/// The view of what judging a payload came to.
pub open spec fn verdict(r: Result<TimelineItem, Rejection>) -> Result<
    TimelineItemView,
    RejectionView,
> {
    match r {
        Ok(item) => Ok(item@),
        Err(cause) => Err(cause@),
    }
}

/// Decodes the payload of an element and keeps it if its kind is allowed.
/// A payload that is missing counts as `null`.
pub fn judge(payload: Option<&Json>) -> (r: Result<TimelineItem, Rejection>)
    ensures
        verdict(r) == judged(
            match payload {
                Some(p) => p@,
                None => JsonValue::Null,
            },
        ),
{
    let decoded = match payload {
        Some(p) => TimelineItem::from_json(p),
        None => Err(DecodeError::here()),
    };
    match decoded {
        Ok(item) => match item.kind() {
            Kind::Unsupported => Err(Rejection::Unsupported(item.type_)),
            _ => Ok(item),
        },
        Err(e) => Err(Rejection::Malformed(e)),
    }
}

/// Decodes a feed envelope `{data, paging}` and accounts for every
/// element that gave no entry.
pub fn read_feed(value: &Json) -> (r: Report<TimelineItem>)
    ensures
        r.page.paging@ == paging_of(value@),
        r.page.data@.map_values(|item: TimelineItem| item@) == feed_entries(data_of(value@)),
        r.rejected@.map_values(|x: Rejected| x@) == feed_rejections(data_of(value@)),
{
    let mut page: ApiResults<TimelineItem> = ApiResults::default();
    let mut rejected: Vec<Rejected> = Vec::new();
    page.paging = paging_in(value);
    let ghost view = |item: TimelineItem| item@;
    let ghost cause = |x: Rejected| x@;
    if let Some(Json::Array(data)) = member_of(value, "data") {
        let mut i: usize = 0;
        proof {
            assert(data@.take(0) =~= Seq::<Json>::empty());
            assert(page.data@.map_values(view) =~= Seq::empty());
            assert(rejected@.map_values(cause) =~= Seq::empty());
        }
        while i < data.len()
            invariant
                i <= data.len(),
                view == (|item: TimelineItem| item@),
                cause == (|x: Rejected| x@),
                page.paging@ == paging_of(value@),
                page.data@.map_values(view) == feed_entries(values_of(data@.take(i as int))),
                rejected@.map_values(cause) == feed_rejections(values_of(data@.take(i as int))),
            decreases data.len() - i,
        {
            proof {
                let now = data@.take(i as int + 1);
                assert(now.drop_last() =~= data@.take(i as int));
                assert(now.last() == data@[i as int]);
                assert(values_of(now) == values_of(now.drop_last()).push(now.last()@));
                assert(values_of(now).drop_last() =~= values_of(now.drop_last()));
                lemma_values_of(now);
            }
            match judge(member_of(&data[i], "target")) {
                Ok(item) => {
                    let ghost before = page.data@;
                    page.data.push(item);
                    assert(page.data@.map_values(view) =~= before.map_values(view).push(item@));
                },
                Err(why) => {
                    let ghost before = rejected@;
                    let entry = Rejected { index: i, cause: why };
                    rejected.push(entry);
                    assert(rejected@.map_values(cause) =~= before.map_values(cause).push(
                        entry@,
                    ));
                },
            }
            i += 1;
        }
        proof {
            assert(data@.take(data.len() as int) =~= data@);
        }
    } else {
        assert(page.data@.map_values(view) =~= Seq::empty());
        assert(rejected@.map_values(cause) =~= Seq::empty());
    }
    Report { page, rejected }
}

/// Decodes a feed envelope `{data, paging}`. An element whose `target` does
/// not decode, or is of a kind other than `answer` and `article`, is left
/// out; the others come in upstream order. Nothing makes this fail: a
/// value that is no envelope gives an empty page.
pub fn parse_timeline(value: &Json) -> (r: ApiResults<TimelineItem>)
    ensures
        r.paging@ == paging_of(value@),
        r.data@.map_values(|item: TimelineItem| item@) == feed_entries(data_of(value@)),
{
    read_feed(value).page
}

/// The view of what reading a search element came to.
pub open spec fn search_verdict(r: Option<Result<SearchItem, Rejection>>) -> Option<
    Result<SearchItemView, RejectionView>,
> {
    match r {
        Some(Ok(item)) => Some(Ok(item@)),
        Some(Err(cause)) => Some(Err(cause@)),
        None => None,
    }
}

/// Decodes one element of a search listing.
pub fn search_item_from(element: &Json) -> (r: Option<Result<SearchItem, Rejection>>)
    ensures
        search_verdict(r) == search_entry(element@),
{
    match member_of(element, "type") {
        Some(Json::Text(kind)) => {
            if same_text(kind.as_str(), "relevant_query") {
                let queries = match member_of(element, "query_list") {
                    Some(q) => q.duplicate(),
                    None => Json::Null,
                };
                Some(Ok(SearchItem::RelevantQuery(queries)))
            } else if same_text(kind.as_str(), "search_result") {
                match judge(member_of(element, "object")) {
                    Ok(item) => Some(Ok(SearchItem::SearchResult(item))),
                    Err(why) => Some(Err(why)),
                }
            } else {
                None
            }
        },
        _ => None,
    }
}

/// Decodes a search envelope `{data, paging}` and accounts for every
/// result that gave no entry.
pub fn read_search(value: &Json) -> (r: Report<SearchItem>)
    ensures
        r.page.paging@ == paging_of(value@),
        r.page.data@.map_values(|item: SearchItem| item@) == search_entries(data_of(value@)),
        r.rejected@.map_values(|x: Rejected| x@) == search_rejections(data_of(value@)),
{
    let mut page: ApiResults<SearchItem> = ApiResults::default();
    let mut rejected: Vec<Rejected> = Vec::new();
    page.paging = paging_in(value);
    let ghost view = |item: SearchItem| item@;
    let ghost cause = |x: Rejected| x@;
    if let Some(Json::Array(data)) = member_of(value, "data") {
        let mut i: usize = 0;
        proof {
            assert(data@.take(0) =~= Seq::<Json>::empty());
            assert(page.data@.map_values(view) =~= Seq::empty());
            assert(rejected@.map_values(cause) =~= Seq::empty());
        }
        while i < data.len()
            invariant
                i <= data.len(),
                view == (|item: SearchItem| item@),
                cause == (|x: Rejected| x@),
                page.paging@ == paging_of(value@),
                page.data@.map_values(view) == search_entries(values_of(data@.take(i as int))),
                rejected@.map_values(cause) == search_rejections(
                    values_of(data@.take(i as int)),
                ),
            decreases data.len() - i,
        {
            proof {
                let now = data@.take(i as int + 1);
                assert(now.drop_last() =~= data@.take(i as int));
                assert(now.last() == data@[i as int]);
                assert(values_of(now) == values_of(now.drop_last()).push(now.last()@));
                assert(values_of(now).drop_last() =~= values_of(now.drop_last()));
                lemma_values_of(now);
            }
            match search_item_from(&data[i]) {
                Some(Ok(item)) => {
                    let ghost before = page.data@;
                    page.data.push(item);
                    assert(page.data@.map_values(view) =~= before.map_values(view).push(item@));
                },
                Some(Err(why)) => {
                    let ghost before = rejected@;
                    let entry = Rejected { index: i, cause: why };
                    rejected.push(entry);
                    assert(rejected@.map_values(cause) =~= before.map_values(cause).push(
                        entry@,
                    ));
                },
                None => {},
            }
            i += 1;
        }
        proof {
            assert(data@.take(data.len() as int) =~= data@);
        }
    } else {
        assert(page.data@.map_values(view) =~= Seq::empty());
        assert(rejected@.map_values(cause) =~= Seq::empty());
    }
    Report { page, rejected }
}

/// Decodes a search envelope `{data, paging}`. An element of type
/// `relevant_query` passes its `query_list` on as it came; one of type
/// `search_result` gives the entry in its `object`, decoded and kept as
/// in a feed; any other element is left out.
pub fn parse_search(value: &Json) -> (r: ApiResults<SearchItem>)
    ensures
        r.paging@ == paging_of(value@),
        r.data@.map_values(|item: SearchItem| item@) == search_entries(data_of(value@)),
{
    read_search(value).page
}

/// The pattern of the block in which a server-rendered page embeds its
/// state: one script element, recognised by its id and type, with
/// whatever stands between its tags, line breaks among it, up to the first
/// end tag.
pub const STATE_BLOCK: &'static str =
    "(?s)<script id=\"js-initialData\" type=\"text/json\">(.*?)</script>";

/// The text that a match of the block pattern holds between the tags.
pub open spec fn captured_text(found: Option<CapturedView>) -> Option<Seq<char>> {
    match found {
        Some(found) => if found.groups.len() > 1 {
            found.groups[1]
        } else {
            None
        },
        None => None,
    }
}

/// The text inside the first state block of `html`.
pub open spec fn embedded_text(html: Seq<char>) -> Option<Seq<char>> {
    captured_text(first_match_in(STATE_BLOCK@, html))
}

/// The document that the state block of `html` holds.
pub open spec fn embedded_document(html: Seq<char>) -> Option<JsonValue> {
    match embedded_text(html) {
        Some(text) => json_of_text(text),
        None => None,
    }
}

/// The state that `html` embeds: the document of its state block, unless
/// that is `null`.
pub open spec fn embedded_state(html: Seq<char>) -> Option<JsonValue> {
    match embedded_document(html) {
        Some(state) => if state is Null {
            None
        } else {
            Some(state)
        },
        None => None,
    }
}

/// Where the state files the entity `id` of `category`: under
/// `initialState`, `entities`, the category and the id. `null` where a
/// step of that path is missing.
pub open spec fn entity_in(state: JsonValue, category: Seq<char>, id: Seq<char>) -> JsonValue {
    member_or_null(
        member_or_null(
            member_or_null(member_or_null(state, "initialState"@), "entities"@),
            category,
        ),
        id,
    )
}

/// The record that the entity `id` of `category` in an embedded document
/// describes, if there is a document and the entity describes one.
pub open spec fn entity_described<V>(
    document: Option<JsonValue>,
    category: Seq<char>,
    id: Seq<char>,
    describe: spec_fn(JsonValue) -> Result<V, Seq<StepView>>,
) -> Option<V> {
    match document {
        Some(state) => match describe(entity_in(state, category, id)) {
            Ok(record) => Some(record),
            Err(_) => None,
        },
        None => None,
    }
}

/// Takes the text between the tags out of a match of the block pattern.
pub fn block_text(found: Option<Captured>) -> (r: Option<String>)
    ensures
        view_of(r) == captured_text(view_of(found)),
{
    let mut found = found?;
    if found.groups.len() > 1 {
        let ghost groups = found.groups@;
        let text = found.groups.swap_remove(1);
        assert(text == groups[1]);
        text
    } else {
        None
    }
}

/// The reader of embedded state: the pattern of the state block, compiled
/// once and used for every page.
#[derive(Debug)]
pub struct StateBlocks {
    block: Pattern,
}

impl View for StateBlocks {
    type V = Seq<char>;

    /// The pattern that the reader finds blocks by.
    closed spec fn view(&self) -> Seq<char> {
        self.block@
    }
}

impl StateBlocks {
    /// The pattern is that of the state block.
    #[verifier::type_invariant]
    spec fn pattern_fits(self) -> bool {
        self.block@ == STATE_BLOCK@
    }

    /// Makes a reader.
    pub fn new() -> (r: StateBlocks)
        ensures
            r@ == STATE_BLOCK@,
    {
        StateBlocks { block: Pattern::new(STATE_BLOCK) }
    }

    /// The text inside the first state block of `html`.
    pub fn text_in(&self, html: &str) -> (r: Option<String>)
        ensures
            view_of(r) == embedded_text(html@),
    {
        proof {
            use_type_invariant(self);
        }
        block_text(self.block.first_match(html))
    }

    /// Finds the state block of a server-rendered page and reads the
    /// document in it. `None` where the page has no such block, where the
    /// block holds no JSON document, and where the document is `null`.
    pub fn initial_data(&self, html: &str) -> (r: Option<Json>)
        ensures
            view_of(r) == embedded_state(html@),
    {
        let text = self.text_in(html)?;
        let state = Json::parse(text.as_str())?;
        match state {
            Json::Null => None,
            _ => Some(state),
        }
    }

    /// Decodes the entity `id` of `category` out of the state that a
    /// server-rendered page embeds. `None` where the page embeds no state,
    /// and where the state does not hold the entity or holds something
    /// else in its place; the caller then falls back on a blank record.
    pub fn entity_data<T: FromJson>(&self, html: &str, entity: &str, id: &str) -> (r: Option<T>)
        ensures
            view_of(r) == entity_described(
                embedded_document(html@),
                entity@,
                id@,
                |v: JsonValue| T::described_by(v),
            ),
    {
        let text = self.text_in(html)?;
        let state = Json::parse(text.as_str())?;
        match decode_entity::<T>(&state, entity, id) {
            Ok(record) => Some(record),
            Err(_) => None,
        }
    }
}

/// Finds the state block of a server-rendered page and reads the document
/// in it, with a reader made on the spot.
pub fn parse_inital_data(html: &str) -> (r: Option<Json>)
    ensures
        view_of(r) == embedded_state(html@),
{
    StateBlocks::new().initial_data(html)
}

/// Follows the path of the entity `id` of `category` through `state`.
pub fn entity_of<'a>(state: &'a Json, category: &str, id: &str) -> (r: Option<&'a Json>)
    ensures
        match r {
            Some(v) => entity_in(state@, category@, id@) == v@,
            None => entity_in(state@, category@, id@) is Null,
        },
{
    let initial = member_of(state, "initialState")?;
    let entities = member_of(initial, "entities")?;
    let of_category = member_of(entities, category)?;
    member_of(of_category, id)
}

/// Decodes the entity `id` of `category` out of an embedded state. A
/// state that does not hold the entity fails like a `null` in its place.
pub fn decode_entity<T: FromJson>(state: &Json, category: &str, id: &str) -> (r: Result<
    T,
    DecodeError,
>)
    ensures
        match r {
            Ok(record) => T::described_by(entity_in(state@, category@, id@)) == Ok::<
                T::V,
                Seq<StepView>,
            >(record@),
            Err(_) => T::described_by(entity_in(state@, category@, id@)) is Err,
        },
{
    match entity_of(state, category, id) {
        Some(v) => T::decode(v),
        None => {
            proof {
                T::lemma_null_describes_nothing();
            }
            Err(DecodeError::here())
        },
    }
}

/// Decodes the entity `id` of `category` out of the state that a
/// server-rendered page embeds, with a reader made on the spot.
pub fn parse_entity_data<T: FromJson>(html: &str, entity: &str, id: &str) -> (r: Option<T>)
    ensures
        view_of(r) == entity_described(
            embedded_document(html@),
            entity@,
            id@,
            |v: JsonValue| T::described_by(v),
        ),
{
    StateBlocks::new().entity_data(html, entity, id)
}

} // verus!
