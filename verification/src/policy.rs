//! Which events the relay takes.
use crate::filters;
use crate::filters::Filter;
use nostr_sdk::prelude::TagKind;
use nostr_sdk::prelude::Tags;
use std::borrow::Cow;
use vstd::prelude::*;

verus! {

/// What the policy reads of an event: its id, its kind and its tags. No tag is empty.
#[derive(Debug)]
pub struct Event {
    id: String,
    kind: u16,
    tags: Vec<Vec<String>>,
}

/// An event, with texts as sequences of characters.
pub struct EventView {
    pub id: Seq<char>,
    pub kind: u16,
    pub tags: Seq<Seq<Seq<char>>>,
}

/// The texts of a list of tags.
pub open spec fn tags_view(tags: Seq<Vec<String>>) -> Seq<Seq<Seq<char>>> {
    tags.map_values(|tag: Vec<String>| tag_view(tag@))
}

/// The texts of a tag.
pub open spec fn tag_view(tag: Seq<String>) -> Seq<Seq<char>> {
    tag.map_values(|s: String| s@)
}

/// The first tag whose first element is `name`.
pub open spec fn first_tag(tags: Seq<Seq<Seq<char>>>, name: Seq<char>) -> Option<Seq<Seq<char>>>
    decreases tags.len(),
{
    if tags.len() == 0 {
        None
    } else if tags[0][0] == name {
        Some(tags[0])
    } else {
        first_tag(tags.skip(1), name)
    }
}

/// The value of a tag: its second element, if it has one.
pub open spec fn tag_value(tag: Seq<Seq<char>>) -> Option<Seq<char>> {
    if tag.len() > 1 {
        Some(tag[1])
    } else {
        None
    }
}

/// `nostr_sdk::prelude::Tags::find`, of the list made of `tags`, by the tag kind `name`. The
/// contract claims that the first tag whose first element is `name` comes back with all its
/// elements, and `None` if there is no such tag. A list with an empty tag is left out: the
/// outside list cannot hold one.
#[verifier::external_body]
fn find_tag(tags: &Vec<Vec<String>>, name: &str) -> (found: Option<Vec<String>>)
    requires
        forall|i: int| 0 <= i < tags@.len() ==> (#[trigger] tags@[i])@.len() > 0,
    ensures
        match found {
            Some(tag) => first_tag(tags_view(tags@), name@) == Some(tag_view(tag@)),
            None => first_tag(tags_view(tags@), name@) is None,
        },
{
    let list = Tags::parse(tags.clone()).ok()?;
    list.find(TagKind::Custom(Cow::Borrowed(name))).map(|tag| tag.clone().to_vec())
}

impl View for Event {
    type V = EventView;

    closed spec fn view(&self) -> EventView {
        EventView { id: self.id@, kind: self.kind, tags: tags_view(self.tags@) }
    }
}

impl EventView {
    /// The info hash of a torrent: the value of its first `x` tag.
    pub open spec fn info_hash(self) -> Option<Seq<char>> {
        match first_tag(self.tags, "x"@) {
            Some(tag) => tag_value(tag),
            None => None,
        }
    }
}

impl Event {
    #[verifier::type_invariant]
    spec fn no_tag_is_empty(self) -> bool {
        forall|i: int| 0 <= i < self.tags@.len() ==> (#[trigger] self.tags@[i])@.len() > 0
    }

    /// An event, unless one of its tags is empty.
    pub fn new(id: String, kind: u16, tags: Vec<Vec<String>>) -> (event: Option<Self>)
        ensures
            match event {
                Some(e) => {
                    &&& forall|i: int| 0 <= i < tags@.len() ==> (#[trigger] tags@[i])@.len() > 0
                    &&& e@ == (EventView { id: id@, kind, tags: tags_view(tags@) })
                    &&& e@.id == id@
                    &&& e@.kind == kind
                    &&& e@.tags.len() == tags@.len()
                    &&& forall|i: int| 0 <= i < tags@.len() ==> (#[trigger] e@.tags[i]).len() == tags@[i]@.len()
                    &&& forall|i: int, j: int|
                        0 <= i < tags@.len() && 0 <= j < tags@[i]@.len() ==> #[trigger] e@.tags[i][j] == tags@[i]@[j]@
                },
                None => exists|i: int| 0 <= i < tags@.len() && (#[trigger] tags@[i])@.len() == 0,
            },
    {
        let mut i: usize = 0;
        while i < tags.len()
            invariant
                i <= tags@.len(),
                forall|k: int| 0 <= k < i ==> (#[trigger] tags@[k])@.len() > 0,
            decreases tags@.len() - i,
        {
            if tags[i].is_empty() {
                return None;
            }
            i += 1;
        }
        Some(Event { id, kind, tags })
    }

    /// The info hash of a torrent: the value of its first `x` tag, as it stands there.
    pub fn info_hash(&self) -> (hash: Option<String>)
        ensures
            match hash {
                Some(h) => self@.info_hash() == Some(h@),
                None => self@.info_hash() is None,
            },
            forall|i: int|
                0 <= i < self@.tags.len() && (#[trigger] self@.tags[i])[0] == "x"@ && (forall|j: int|
                    0 <= j < i ==> (#[trigger] self@.tags[j])[0] != "x"@) ==> if self@.tags[i].len() > 1 {
                    hash matches Some(h) && h@ == self@.tags[i][1]
                } else {
                    hash is None
                },
            (forall|i: int| 0 <= i < self@.tags.len() ==> (#[trigger] self@.tags[i])[0] != "x"@) ==> hash is None,
    {
        proof {
            use_type_invariant(self);
            x_tags_decide(self@);
        }
        match find_tag(&self.tags, "x") {
            Some(tag) => {
                if tag.len() > 1 {
                    Some(tag[1].clone())
                } else {
                    None
                }
            },
            None => None,
        }
    }
}

/// What a write policy says of an event.
#[derive(Debug)]
pub enum WritePolicyResult {
    Accept,
    Reject(String),
}

/// What a write policy says of an event, with the message as characters.
pub enum Verdict {
    Accept,
    Reject(Seq<char>),
}

impl View for WritePolicyResult {
    type V = Verdict;

    open spec fn view(&self) -> Verdict {
        match self {
            WritePolicyResult::Accept => Verdict::Accept,
            WritePolicyResult::Reject(message) => Verdict::Reject(message@),
        }
    }
}

impl WritePolicyResult {
    fn reject(message: &str) -> (result: Self)
        ensures
            result@ == Verdict::Reject(message@),
    {
        WritePolicyResult::Reject(message.to_owned())
    }
}

/// What the policy says of an event before it has looked into the database.
#[derive(Debug)]
pub enum Admission {
    /// The event is taken or refused, whatever the database holds.
    Decided(WritePolicyResult),
    /// What the database holds for the filter decides.
    Query(Filter),
}

/// What the database said: the ids of the events that it found, or that it failed.
#[derive(Debug)]
pub enum QueryOutcome {
    Found(Vec<String>),
    Failed,
}

impl View for QueryOutcome {
    type V = Option<Seq<Seq<char>>>;

    /// The ids that were found, or `None` where the database failed.
    open spec fn view(&self) -> Option<Seq<Seq<char>>> {
        match self {
            QueryOutcome::Found(ids) => Some(ids@.map_values(|id: String| id@)),
            QueryOutcome::Failed => None,
        }
    }
}

/// The filter for torrents with an info hash.
pub open spec fn info_hash_view(info_hash: Seq<char>) -> filters::FilterView {
    filters::FilterView { kinds: seq![filters::KIND_TORRENT], tag: Some(('x', info_hash)), limit: None }
}

fn info_hash_filter(info_hash: String) -> (filter: Filter)
    ensures
        filter@ == info_hash_view(info_hash@),
{
    let kinds = vec![filters::KIND_TORRENT];
    let filter = Filter { kinds, tag: Some(('x', info_hash)), limit: None };
    assert(filter@ =~= info_hash_view(info_hash@));
    filter
}

/// Takes the kinds of events that the archive is made of and, if `distinct_info_hash` is
/// set, only one torrent for each info hash.
#[derive(Debug, Clone, Copy)]
pub struct TorrentPolicy {
    pub distinct_info_hash: bool,
}

impl TorrentPolicy {
    pub fn new(distinct: bool) -> (policy: Self)
        ensures
            policy.distinct_info_hash == distinct,
    {
        TorrentPolicy { distinct_info_hash: distinct }
    }

    /// What is said of an event whatever the database holds; `None` where that decides.
    pub open spec fn early_verdict(self, event: EventView) -> Option<Verdict> {
        if !filters::is_accepted(event.kind) {
            Some(Verdict::Reject("kind not accepted"@))
        } else if event.kind == filters::KIND_TORRENT && self.distinct_info_hash {
            if event.info_hash() is Some {
                None
            } else {
                Some(Verdict::Reject("Missing 'x' tag"@))
            }
        } else {
            Some(Verdict::Accept)
        }
    }

    /// What is said of a torrent by the ids of the torrents that have its info hash.
    pub open spec fn late_verdict(event: EventView, outcome: Option<Seq<Seq<char>>>) -> Verdict {
        match outcome {
            None => Verdict::Reject("Internal server error (DB)"@),
            Some(ids) => if ids.contains(event.id) || ids.len() == 0 {
                Verdict::Accept
            } else {
                Verdict::Reject("duplicate info_hash"@)
            },
        }
    }

    /// What is said of an event in the end, if `outcome` is what the database holds for it.
    pub open spec fn verdict(self, event: EventView, outcome: Option<Seq<Seq<char>>>) -> Verdict {
        match self.early_verdict(event) {
            Some(verdict) => verdict,
            None => Self::late_verdict(event, outcome),
        }
    }

    /// Decides about an event as far as that can be done without the database, or asks for
    /// the torrents with its info hash.
    pub fn admit_event(&self, event: &Event) -> (admission: Admission)
        ensures
            match admission {
                Admission::Decided(result) => self.early_verdict(event@) == Some(result@),
                Admission::Query(filter) => {
                    &&& self.early_verdict(event@) is None
                    &&& filter@ == info_hash_view(event@.info_hash()->0)
                },
            },
            !(event@.kind == 2003 || event@.kind == 2004 || event@.kind == 0 || event@.kind == 10002 || event@.kind
                == 1111 || event@.kind == 9735) ==> {
                &&& admission matches Admission::Decided(WritePolicyResult::Reject(message))
                &&& message@ == "kind not accepted"@
            },
            event@.kind == 2004 || event@.kind == 0 || event@.kind == 10002 || event@.kind == 1111 || event@.kind
                == 9735 ==> admission matches Admission::Decided(WritePolicyResult::Accept),
            event@.kind == 2003 && !self.distinct_info_hash ==> admission matches Admission::Decided(
                WritePolicyResult::Accept,
            ),
            event@.kind == 2003 && self.distinct_info_hash ==> forall|i: int|
                0 <= i < event@.tags.len() && (#[trigger] event@.tags[i])[0] == "x"@ && event@.tags[i].len() > 1 && (
                forall|j: int| 0 <= j < i ==> (#[trigger] event@.tags[j])[0] != "x"@) ==> {
                    &&& admission matches Admission::Query(filter)
                    &&& filter.kinds@ == seq![2003u16]
                    &&& filter.tag matches Some(tag)
                    &&& tag.0 == 'x'
                    &&& tag.1@ == event@.tags[i][1]
                    &&& filter.limit is None
                },
            event@.kind == 2003 && self.distinct_info_hash ==> forall|i: int|
                0 <= i < event@.tags.len() && (#[trigger] event@.tags[i])[0] == "x"@ && event@.tags[i].len() <= 1 && (
                forall|j: int| 0 <= j < i ==> (#[trigger] event@.tags[j])[0] != "x"@) ==> {
                    &&& admission matches Admission::Decided(WritePolicyResult::Reject(message))
                    &&& message@ == "Missing 'x' tag"@
                },
            event@.kind == 2003 && self.distinct_info_hash && (forall|i: int|
                0 <= i < event@.tags.len() ==> (#[trigger] event@.tags[i])[0] != "x"@) ==> {
                &&& admission matches Admission::Decided(WritePolicyResult::Reject(message))
                &&& message@ == "Missing 'x' tag"@
            },
    {
        proof {
            x_tags_decide(event@);
        }
        if !filters::accepts_kind(event.kind) {
            Admission::Decided(WritePolicyResult::reject("kind not accepted"))
        } else if event.kind == filters::KIND_TORRENT && self.distinct_info_hash {
            match event.info_hash() {
                Some(info_hash) => Admission::Query(info_hash_filter(info_hash)),
                None => Admission::Decided(WritePolicyResult::reject("Missing 'x' tag")),
            }
        } else {
            Admission::Decided(WritePolicyResult::Accept)
        }
    }

    /// Decides about a torrent by what the database holds for its info hash: the torrent
    /// itself may be sent again, and a different torrent with the same info hash keeps it out.
    pub fn admit_found(event: &Event, outcome: &QueryOutcome) -> (result: WritePolicyResult)
        ensures
            result@ == Self::late_verdict(event@, outcome@),
            outcome is Failed ==> {
                &&& result matches WritePolicyResult::Reject(message)
                &&& message@ == "Internal server error (DB)"@
            },
            outcome matches QueryOutcome::Found(ids) ==> {
                &&& ids@.len() == 0 ==> result is Accept
                &&& (exists|i: int| 0 <= i < ids@.len() && (#[trigger] ids@[i])@ == event@.id) ==> result is Accept
                &&& ids@.len() > 0 && (forall|i: int| 0 <= i < ids@.len() ==> (#[trigger] ids@[i])@ != event@.id) ==> {
                    &&& result matches WritePolicyResult::Reject(message)
                    &&& message@ == "duplicate info_hash"@
                }
            },
    {
        match outcome {
            QueryOutcome::Failed => WritePolicyResult::reject("Internal server error (DB)"),
            QueryOutcome::Found(ids) => {
                let mut i: usize = 0;
                while i < ids.len()
                    invariant
                        *outcome == QueryOutcome::Found(*ids),
                        i <= ids@.len(),
                        forall|k: int| 0 <= k < i ==> (#[trigger] ids@[k])@ != event@.id,
                    decreases ids@.len() - i,
                {
                    if ids[i] == event.id {
                        assert((outcome@->0)[i as int] == event@.id);
                        return WritePolicyResult::Accept;
                    }
                    i += 1;
                }
                assert(!(outcome@->0).contains(event@.id));
                if ids.is_empty() {
                    WritePolicyResult::Accept
                } else {
                    WritePolicyResult::reject("duplicate info_hash")
                }
            },
        }
    }
}

proof fn first_tag_at(tags: Seq<Seq<Seq<char>>>, name: Seq<char>, i: int)
    requires
        0 <= i < tags.len(),
        tags[i][0] == name,
        forall|j: int| 0 <= j < i ==> (#[trigger] tags[j])[0] != name,
    ensures
        first_tag(tags, name) == Some(tags[i]),
    decreases tags.len(),
{
    if i > 0 {
        assert(tags[0][0] != name);
        let rest = tags.skip(1);
        assert(forall|j: int| 0 <= j < rest.len() ==> #[trigger] rest[j] == tags[j + 1]);
        first_tag_at(rest, name, i - 1);
    }
}

proof fn first_tag_missing(tags: Seq<Seq<Seq<char>>>, name: Seq<char>)
    requires
        forall|i: int| 0 <= i < tags.len() ==> (#[trigger] tags[i])[0] != name,
    ensures
        first_tag(tags, name) is None,
    decreases tags.len(),
{
    if tags.len() > 0 {
        assert(tags[0][0] != name);
        let rest = tags.skip(1);
        assert(forall|j: int| 0 <= j < rest.len() ==> #[trigger] rest[j] == tags[j + 1]);
        first_tag_missing(rest, name);
    }
}

proof fn first_index(tags: Seq<Seq<Seq<char>>>, name: Seq<char>) -> (i: int)
    requires
        first_tag(tags, name) is Some,
    ensures
        0 <= i < tags.len(),
        tags[i][0] == name,
        forall|j: int| 0 <= j < i ==> (#[trigger] tags[j])[0] != name,
    decreases tags.len(),
{
    if tags[0][0] == name {
        0
    } else {
        let rest = tags.skip(1);
        let k = first_index(rest, name);
        assert forall|j: int| 0 <= j < k + 1 implies (#[trigger] tags[j])[0] != name by {
            if j > 0 {
                assert(rest[j - 1] == tags[j]);
            }
        }
        k + 1
    }
}

/// The first of the tags of an event that are named `x` decides about its info hash: that is
/// the second element of the tag, whole and unchanged, and there is none without such a tag or
/// without such an element.
pub proof fn x_tags_decide(event: EventView)
    ensures
        forall|i: int|
            0 <= i < event.tags.len() && (#[trigger] event.tags[i])[0] == "x"@ && (forall|j: int|
                0 <= j < i ==> (#[trigger] event.tags[j])[0] != "x"@) ==> event.info_hash() == (
            if event.tags[i].len() > 1 {
                Some(event.tags[i][1])
            } else {
                None
            }),
        (forall|i: int| 0 <= i < event.tags.len() ==> (#[trigger] event.tags[i])[0] != "x"@) ==> event.info_hash()
            is None,
{
    assert forall|i: int|
        0 <= i < event.tags.len() && (#[trigger] event.tags[i])[0] == "x"@ && (forall|j: int|
            0 <= j < i ==> (#[trigger] event.tags[j])[0] != "x"@) implies event.info_hash() == (
    if event.tags[i].len() > 1 {
        Some(event.tags[i][1])
    } else {
        None
    }) by {
        first_tag_at(event.tags, "x"@, i);
    }
    if forall|i: int| 0 <= i < event.tags.len() ==> (#[trigger] event.tags[i])[0] != "x"@ {
        first_tag_missing(event.tags, "x"@);
    }
}

/// A torrent whose first `x` tag has a second element is asked about in the database by that
/// element as it stands, and by nothing less: the filter is for torrents, without a limit.
pub proof fn the_query_carries_the_tag_value(policy: TorrentPolicy, event: EventView, i: int)
    requires
        policy.distinct_info_hash,
        event.kind == 2003,
        0 <= i < event.tags.len(),
        event.tags[i].len() > 1,
        event.tags[i][0] == "x"@,
        forall|j: int| 0 <= j < i ==> (#[trigger] event.tags[j])[0] != "x"@,
    ensures
        policy.early_verdict(event) is None,
        info_hash_view(event.info_hash()->0).tag == Some(('x', event.tags[i][1])),
        info_hash_view(event.info_hash()->0).kinds == seq![2003u16],
        info_hash_view(event.info_hash()->0).limit is None,
{
    x_tags_decide(event);
    assert(filters::content_kinds()[0] == event.kind);
}

/// Two torrents are asked about alike exactly if the second elements of their first `x` tags
/// are the same.
pub proof fn queries_tell_info_hashes_apart(a: EventView, i: int, b: EventView, k: int)
    requires
        0 <= i < a.tags.len(),
        a.tags[i].len() > 1,
        a.tags[i][0] == "x"@,
        forall|j: int| 0 <= j < i ==> (#[trigger] a.tags[j])[0] != "x"@,
        0 <= k < b.tags.len(),
        b.tags[k].len() > 1,
        b.tags[k][0] == "x"@,
        forall|j: int| 0 <= j < k ==> (#[trigger] b.tags[j])[0] != "x"@,
    ensures
        info_hash_view(a.info_hash()->0) == info_hash_view(b.info_hash()->0) <==> a.tags[i][1] == b.tags[k][1],
{
    x_tags_decide(a);
    x_tags_decide(b);
    let (x, y) = (info_hash_view(a.info_hash()->0), info_hash_view(b.info_hash()->0));
    if x == y {
        assert(x.tag == y.tag);
    }
}

/// A torrent is refused as a duplicate exactly if the database knows torrents with its info
/// hash and it is not among them itself.
pub proof fn a_second_torrent_is_refused(policy: TorrentPolicy, event: EventView, i: int, ids: Seq<Seq<char>>)
    requires
        policy.distinct_info_hash,
        event.kind == 2003,
        0 <= i < event.tags.len(),
        event.tags[i].len() > 1,
        event.tags[i][0] == "x"@,
        forall|j: int| 0 <= j < i ==> (#[trigger] event.tags[j])[0] != "x"@,
    ensures
        policy.verdict(event, Some(ids)) == Verdict::Reject("duplicate info_hash"@) <==> ids.len() > 0 && !ids.contains(
            event.id,
        ),
        policy.verdict(event, Some(ids)) is Accept <==> ids.len() == 0 || ids.contains(event.id),
        policy.verdict(event, None) == Verdict::Reject("Internal server error (DB)"@),
{
    the_query_carries_the_tag_value(policy, event, i);
}

/// Whether the first `x` tag of an event has `value` as its second element.
pub open spec fn carries(event: EventView, value: Seq<char>) -> bool {
    exists|i: int|
        0 <= i < event.tags.len() && (#[trigger] event.tags[i])[0] == "x"@ && event.tags[i].len() > 1
            && event.tags[i][1] == value && forall|j: int| 0 <= j < i ==> (#[trigger] event.tags[j])[0] != "x"@
}

proof fn carries_its_info_hash(event: EventView, value: Seq<char>)
    ensures
        carries(event, value) <==> event.info_hash() == Some(value),
{
    x_tags_decide(event);
    if event.info_hash() == Some(value) {
        let i = first_index(event.tags, "x"@);
        assert(event.tags[i][0] == "x"@);
    }
}

/// No two stored torrents have the same value in their first `x` tags.
pub open spec fn info_hashes_are_distinct(stored: Set<EventView>) -> bool {
    forall|a: EventView, b: EventView, value: Seq<char>|
        #![trigger stored.contains(a), stored.contains(b), carries(a, value)]
        stored.contains(a) && stored.contains(b) && a.kind == filters::KIND_TORRENT && b.kind
            == filters::KIND_TORRENT && carries(a, value) && carries(b, value) ==> a == b
}

/// Whether `ids` can be what a database that holds `stored` answers for an info hash: each
/// id is that of a stored torrent, and no torrent with the info hash is left out.
pub open spec fn answers_for(stored: Set<EventView>, info_hash: Seq<char>, ids: Seq<Seq<char>>) -> bool {
    &&& forall|id: Seq<char>| #[trigger]
        ids.contains(id) ==> exists|e: EventView| #[trigger]
            stored.contains(e) && e.kind == filters::KIND_TORRENT && e.id == id
    &&& forall|e: EventView| #[trigger]
        stored.contains(e) && e.kind == filters::KIND_TORRENT && carries(e, info_hash) ==> ids.contains(e.id)
}

/// Whether no two different events have the same id.
pub open spec fn ids_identify(events: Set<EventView>) -> bool {
    forall|a: EventView, b: EventView|
        #![trigger events.contains(a), events.contains(b)]
        events.contains(a) && events.contains(b) && a.id == b.id ==> a == b
}

/// A database that is filled through a policy with distinct info hashes holds at most one
/// torrent for each info hash: taking an event keeps that.
pub proof fn one_torrent_per_info_hash(
    policy: TorrentPolicy,
    stored: Set<EventView>,
    event: EventView,
    outcome: Option<Seq<Seq<char>>>,
)
    requires
        policy.distinct_info_hash,
        info_hashes_are_distinct(stored),
        ids_identify(stored.insert(event)),
        outcome matches Some(ids) ==> forall|value: Seq<char>| #[trigger]
            carries(event, value) ==> answers_for(stored, value, ids),
        policy.verdict(event, outcome) is Accept,
    ensures
        info_hashes_are_distinct(stored.insert(event)),
{
    let after = stored.insert(event);
    assert forall|a: EventView, b: EventView, value: Seq<char>|
        #![trigger after.contains(a), after.contains(b), carries(a, value)]
        after.contains(a) && after.contains(b) && a.kind == filters::KIND_TORRENT && b.kind
            == filters::KIND_TORRENT && carries(a, value) && carries(b, value) implies a == b by {
        if a == event || b == event {
            carries_its_info_hash(event, value);
            let ids = outcome->0;
            assert(outcome is Some && answers_for(stored, value, ids));
            if ids.contains(event.id) {
                let e = choose|e: EventView| #[trigger]
                    stored.contains(e) && e.kind == filters::KIND_TORRENT && e.id == event.id;
                assert(after.contains(e) && after.contains(event));
                assert(e == event);
                assert(stored.contains(a) && stored.contains(b));
            } else {
                assert(ids.len() == 0);
                if a != event {
                    assert(stored.contains(a));
                    assert(ids.contains(a.id));
                }
                if b != event {
                    assert(stored.contains(b));
                    assert(ids.contains(b.id));
                }
            }
        } else {
            assert(stored.contains(a) && stored.contains(b));
        }
    }
}

/// An event that was taken once is taken again, whatever else the database holds by then.
pub proof fn an_event_may_be_sent_again(
    policy: TorrentPolicy,
    event: EventView,
    first: Option<Seq<Seq<char>>>,
    second: Option<Seq<Seq<char>>>,
)
    requires
        policy.verdict(event, first) is Accept,
        second matches Some(ids) && ids.contains(event.id),
    ensures
        policy.verdict(event, second) is Accept,
{
}

/// A kind that the archive is not made of is refused, whatever the database says.
pub proof fn other_kinds_are_refused(policy: TorrentPolicy, event: EventView, outcome: Option<Seq<Seq<char>>>)
    requires
        !filters::is_accepted(event.kind),
    ensures
        policy.verdict(event, outcome) == Verdict::Reject("kind not accepted"@),
{
}

/// Where info hashes need not be distinct, every event of an accepted kind is taken.
pub proof fn accepted_kinds_are_taken(event: EventView, outcome: Option<Seq<Seq<char>>>)
    requires
        filters::is_accepted(event.kind),
    ensures
        (TorrentPolicy { distinct_info_hash: false }).verdict(event, outcome) is Accept,
{
}

} // verus!
