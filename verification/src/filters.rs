//! The kinds of events that the archive holds, and the filters that ask for them.
use crate::text;
use vstd::prelude::*;

verus! {

/// A torrent.
pub const KIND_TORRENT: u16 = 2003;

/// A comment on a torrent.
pub const KIND_TORRENT_COMMENT: u16 = 2004;

/// The profile of a user.
pub const KIND_METADATA: u16 = 0;

/// The relays of a user.
pub const KIND_RELAY_LIST: u16 = 10002;

/// A comment on any event.
pub const KIND_COMMENT: u16 = 1111;

/// The receipt of a zap.
pub const KIND_ZAP_RECEIPT: u16 = 9735;

/// The greatest number of tags of a torrent that a relay may send.
pub const MAX_TORRENT_TAGS: u16 = 10000;

/// How many events a subscription to comments and zaps first asks for.
pub const RELATED_LIMIT: usize = 10;

/// Asks for events by kind, by the value of a single-letter tag, and up to a number.
#[derive(Debug)]
pub struct Filter {
    pub kinds: Vec<u16>,
    pub tag: Option<(char, String)>,
    pub limit: Option<usize>,
}

/// What a filter asks for.
#[verifier::ext_equal]
pub struct FilterView {
    pub kinds: Seq<u16>,
    pub tag: Option<(char, Seq<char>)>,
    pub limit: Option<usize>,
}

impl View for Filter {
    type V = FilterView;

    open spec fn view(&self) -> FilterView {
        FilterView {
            kinds: self.kinds@,
            tag: match self.tag {
                Some(t) => Some((t.0, t.1@)),
                None => None,
            },
            limit: self.limit,
        }
    }
}

/// The kinds that are kept whatever they refer to.
pub open spec fn content_kinds() -> Seq<u16> {
    seq![KIND_TORRENT, KIND_TORRENT_COMMENT, KIND_METADATA, KIND_RELAY_LIST]
}

/// The kinds that are asked for only where they refer to a torrent.
pub open spec fn related_kinds() -> Seq<u16> {
    seq![KIND_COMMENT, KIND_ZAP_RECEIPT]
}

/// Whether the archive takes events of a kind.
pub open spec fn is_accepted(kind: u16) -> bool {
    content_kinds().contains(kind) || related_kinds().contains(kind)
}

/// Whether the archive takes events of a kind.
pub fn accepts_kind(kind: u16) -> (accepted: bool)
    ensures
        accepted == is_accepted(kind),
        accepted <==> kind == 2003 || kind == 2004 || kind == 0 || kind == 10002 || kind == 1111 || kind == 9735,
{
    let content = kind == KIND_TORRENT || kind == KIND_TORRENT_COMMENT || kind == KIND_METADATA
        || kind == KIND_RELAY_LIST;
    let related = kind == KIND_COMMENT || kind == KIND_ZAP_RECEIPT;
    proof {
        let c = content_kinds();
        let r = related_kinds();
        assert(c[0] == KIND_TORRENT && c[1] == KIND_TORRENT_COMMENT && c[2] == KIND_METADATA && c[3]
            == KIND_RELAY_LIST);
        assert(r[0] == KIND_COMMENT && r[1] == KIND_ZAP_RECEIPT);
    }
    content || related
}

/// The filter for torrents, their comments, profiles and relay lists.
pub fn content_filter() -> (filter: Filter)
    ensures
        filter@ == (FilterView { kinds: content_kinds(), tag: None, limit: None }),
        filter.kinds@ == seq![2003u16, 2004u16, 0u16, 10002u16],
        filter.tag is None,
        filter.limit is None,
{
    let kinds = vec![KIND_TORRENT, KIND_TORRENT_COMMENT, KIND_METADATA, KIND_RELAY_LIST];
    let filter = Filter { kinds, tag: None, limit: None };
    assert(filter@ =~= FilterView { kinds: content_kinds(), tag: None, limit: None });
    filter
}

/// Comments and zaps whose `K` tag says that they refer to a torrent.
pub open spec fn related_view(limit: Option<usize>) -> FilterView {
    FilterView {
        kinds: related_kinds(),
        tag: Some(('K', text::decimal(KIND_TORRENT as nat))),
        limit,
    }
}

/// The filter for comments and zaps on torrents, up to `limit` of them.
pub fn related_filter(limit: Option<usize>) -> (filter: Filter)
    ensures
        filter@ == related_view(limit),
        filter.kinds@ == seq![1111u16, 9735u16],
        filter.tag matches Some(tag) && tag.0 == 'K' && tag.1@ == "2003"@,
        filter.limit == limit,
{
    proof {
        torrent_kind_in_decimal();
    }
    let kinds = vec![KIND_COMMENT, KIND_ZAP_RECEIPT];
    let mut kind: String = String::new();
    text::push_decimal(&mut kind, KIND_TORRENT);
    assert(kind@ =~= text::decimal(KIND_TORRENT as nat));
    let filter = Filter { kinds, tag: Some(('K', kind)), limit };
    assert(filter@ =~= related_view(limit));
    filter
}

/// Every kind that the filters ask for is accepted, and no other kind is.
pub proof fn filters_ask_for_what_is_accepted(kind: u16, limit: Option<usize>)
    ensures
        is_accepted(kind) <==> content_kinds().contains(kind) || related_view(limit).kinds.contains(kind),
{
}

/// The kinds that are taken: torrents, their comments, profiles, relay lists, comments and zap
/// receipts.
pub proof fn six_kinds_are_accepted(kind: u16)
    ensures
        is_accepted(kind) <==> kind == 2003 || kind == 2004 || kind == 0 || kind == 10002 || kind == 1111 || kind
            == 9735,
{
    let c = content_kinds();
    let r = related_kinds();
    assert(c[0] == 2003 && c[1] == 2004 && c[2] == 0 && c[3] == 10002);
    assert(r[0] == 1111 && r[1] == 9735);
}

/// How many tags a torrent may have, and how many comments and zaps are asked for at first.
pub proof fn numbers_are_limited()
    ensures
        MAX_TORRENT_TAGS == 10000,
        RELATED_LIMIT == 10,
{
}

/// The `K` tag of a comment or zap on a torrent holds `2003`.
pub proof fn torrent_kind_in_decimal()
    ensures
        text::decimal(KIND_TORRENT as nat) == "2003"@,
{
    reveal_with_fuel(text::decimal, 4);
    reveal_strlit("0123456789");
    reveal_strlit("2003");
    assert(text::decimal(KIND_TORRENT as nat) =~= "2003"@);
}

} // verus!
