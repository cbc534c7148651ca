//! The query engine: which records of a snapshot a predicate selects.
//!
//! A predicate has up to six fields, each of them optional. A field that is
//! absent imposes no constraint; the fields that are present must all hold.
//! There is no way to ask for one field or another: that is a deliberate
//! simplification.

use crate::inventory::{port_views, text_views, PortInfo, PortInfoView};
use crate::process::text_view;
use crate::text::{contains_text, eq_ignore_ascii_case, eq_ignoring_ascii_case, lowercase};
use crate::text::{text_contains, text_eq, to_lowercase};
use vstd::prelude::*;

verus! {

/// The characters of an optional borrowed text.
pub open spec fn str_view(text: Option<&str>) -> Option<Seq<char>> {
    match text {
        Some(t) => Some(t@),
        None => None,
    }
}

/// The character sequences of an optional list of texts.
pub open spec fn tags_view(tags: Option<&[String]>) -> Option<Seq<Seq<char>>> {
    match tags {
        Some(list) => Some(text_views(list@)),
        None => None,
    }
}

/// Whether the free-text query matches the process name of the record,
/// without regard to case. The empty query matches every record. A record
/// without a process name has the empty name.
pub open spec fn name_matches(record: PortInfoView, query: Seq<char>) -> bool {
    query.len() == 0 || contains_text(
        lowercase(
            match record.process_name {
                Some(name) => name,
                None => Seq::empty(),
            },
        ),
        lowercase(query),
    )
}

/// Whether the free-text query matches one of the text columns of the
/// record, without regard to case: local address, remote address, state or
/// process name. A record without a process name has no name to match.
pub open spec fn text_matches(record: PortInfoView, query: Seq<char>) -> bool {
    ||| contains_text(lowercase(record.local_addr), lowercase(query))
    ||| contains_text(lowercase(record.remote_addr), lowercase(query))
    ||| contains_text(lowercase(record.state), lowercase(query))
    ||| (record.process_name matches Some(name) && contains_text(
        lowercase(name),
        lowercase(query),
    ))
}

/// Whether the record's protocol has the name `protocol`, without regard to
/// ASCII case.
pub open spec fn protocol_matches(record: PortInfoView, protocol: Seq<char>) -> bool {
    eq_ignoring_ascii_case(record.protocol.label_spec(), protocol)
}

/// Whether the record's state has the name `state`, without regard to ASCII case.
pub open spec fn state_matches(record: PortInfoView, state: Seq<char>) -> bool {
    eq_ignoring_ascii_case(record.state, state)
}

/// Whether the record's local port lies in the inclusive range.
pub open spec fn port_in_range(record: PortInfoView, range: (u16, u16)) -> bool {
    range.0 <= record.port <= range.1
}

/// Whether the record carries every one of the tags asked for.
pub open spec fn has_all_tags(record: PortInfoView, tags: Seq<Seq<char>>) -> bool {
    forall|i: int| 0 <= i < tags.len() ==> record.tags.contains(#[trigger] tags[i])
}

/// Whether the record meets every structured field that is present.
pub open spec fn fields_match(
    record: PortInfoView,
    protocol: Option<Seq<char>>,
    state: Option<Seq<char>>,
    port_range: Option<(u16, u16)>,
    tags: Option<Seq<Seq<char>>>,
    user: Option<Seq<char>>,
) -> bool {
    &&& protocol matches Some(p) ==> protocol_matches(record, p)
    &&& state matches Some(s) ==> state_matches(record, s)
    &&& port_range matches Some(range) ==> port_in_range(record, range)
    &&& tags matches Some(list) ==> has_all_tags(record, list)
    &&& user matches Some(u) ==> record.user == Some(u)
}

/// Whether the record meets the whole predicate: the free-text query and
/// every structured field that is present.
pub open spec fn record_matches(
    record: PortInfoView,
    query: Seq<char>,
    protocol: Option<Seq<char>>,
    state: Option<Seq<char>>,
    port_range: Option<(u16, u16)>,
    tags: Option<Seq<Seq<char>>>,
    user: Option<Seq<char>>,
) -> bool {
    fields_match(record, protocol, state, port_range, tags, user) && name_matches(record, query)
}

/// Whether `tags` holds the text `tag`.
pub fn has_tag(tags: &Vec<String>, tag: &str) -> (found: bool)
    ensures
        found == text_views(tags@).contains(tag@),
{
    let mut i: usize = 0;
    while i < tags.len()
        invariant
            i <= tags.len(),
            forall|k: int| 0 <= k < i ==> text_views(tags@)[k] != tag@,
        decreases tags.len() - i,
    {
        if text_eq(tags[i].as_str(), tag) {
            assert(text_views(tags@)[i as int] == tag@);
            return true;
        }
        i += 1;
    }
    false
}

impl PortInfo {
    /// Whether the record carries every tag of `wanted`.
    pub fn has_tags(&self, wanted: &[String]) -> (all: bool)
        ensures
            all == has_all_tags(self@, text_views(wanted@)),
    {
        let mut i: usize = 0;
        while i < wanted.len()
            invariant
                i <= wanted.len(),
                forall|k: int|
                    0 <= k < i ==> self@.tags.contains(#[trigger] text_views(wanted@)[k]),
            decreases wanted.len() - i,
        {
            if !has_tag(&self.tags, wanted[i].as_str()) {
                assert(!self@.tags.contains(text_views(wanted@)[i as int]));
                return false;
            }
            i += 1;
        }
        true
    }

    /// Whether the record meets every structured field that is present:
    /// protocol and state by name without regard to ASCII case, the local
    /// port by an inclusive range, the tags by inclusion, the user exactly.
    pub fn matches_fields(
        &self,
        protocol: Option<&str>,
        state: Option<&str>,
        port_range: Option<(u16, u16)>,
        tags: Option<&[String]>,
        user: Option<&str>,
    ) -> (result: bool)
        ensures
            result == fields_match(
                self@,
                str_view(protocol),
                str_view(state),
                port_range,
                tags_view(tags),
                str_view(user),
            ),
    {
        if let Some(p) = protocol {
            if !eq_ignore_ascii_case(self.protocol.label(), p) {
                return false;
            }
        }
        if let Some(s) = state {
            if !eq_ignore_ascii_case(self.state.as_str(), s) {
                return false;
            }
        }
        if let Some((start, end)) = port_range {
            if !(self.port >= start && self.port <= end) {
                return false;
            }
        }
        if let Some(list) = tags {
            if !self.has_tags(list) {
                return false;
            }
        }
        if let Some(u) = user {
            let same = match &self.user {
                Some(mine) => text_eq(mine.as_str(), u),
                None => false,
            };
            if !same {
                return false;
            }
        }
        true
    }

    /// Whether the free-text query occurs in the process name, without
    /// regard to case. The empty query occurs in every name; the empty name
    /// stands for a missing one.
    pub fn matches_name(&self, query: &str) -> (result: bool)
        ensures
            result == name_matches(self@, query@),
    {
        if query.is_empty() {
            return true;
        }
        let needle = to_lowercase(query);
        let name = match &self.process_name {
            Some(name) => to_lowercase(name.as_str()),
            None => to_lowercase(""),
        };
        proof {
            reveal_strlit("");
            assert(""@ =~= Seq::<char>::empty());
        }
        text_contains(name.as_str(), needle.as_str())
    }

    /// Whether the record meets the predicate: the free-text query on the
    /// process name and every structured field that is present.
    pub fn matches(
        &self,
        query: &str,
        protocol: Option<&str>,
        state: Option<&str>,
        port_range: Option<(u16, u16)>,
        tags: Option<&[String]>,
        user: Option<&str>,
    ) -> (result: bool)
        ensures
            result == record_matches(
                self@,
                query@,
                str_view(protocol),
                str_view(state),
                port_range,
                tags_view(tags),
                str_view(user),
            ),
    {
        self.matches_fields(protocol, state, port_range, tags, user) && self.matches_name(query)
    }

    /// Whether the free-text query occurs in one of the text columns of the
    /// record, without regard to case: the interactive search.
    pub fn matches_text(&self, query: &str) -> (result: bool)
        ensures
            result == text_matches(self@, query@),
    {
        let needle = to_lowercase(query);
        if text_contains(to_lowercase(self.local_addr.as_str()).as_str(), needle.as_str()) {
            return true;
        }
        if text_contains(to_lowercase(self.remote_addr.as_str()).as_str(), needle.as_str()) {
            return true;
        }
        if text_contains(to_lowercase(self.state.as_str()).as_str(), needle.as_str()) {
            return true;
        }
        match &self.process_name {
            Some(name) => text_contains(to_lowercase(name.as_str()).as_str(), needle.as_str()),
            None => false,
        }
    }
}

/// A predicate over the records of a snapshot. Every field is optional.
#[derive(Debug, PartialEq, Eq)]
pub struct PortFilter {
    /// Free text to look for in the process name.
    pub query: Option<String>,
    /// Protocol name.
    pub protocol: Option<String>,
    /// State name.
    pub state: Option<String>,
    /// Lowest local port.
    pub port_start: Option<u16>,
    /// Highest local port.
    pub port_end: Option<u16>,
    /// Tags that a record must carry.
    pub tags: Option<Vec<String>>,
    /// Owning user.
    pub user: Option<String>,
}

/// The character sequences of an optional owned list of texts.
pub open spec fn owned_tags_view(tags: Option<Vec<String>>) -> Option<Seq<Seq<char>>> {
    match tags {
        Some(list) => Some(text_views(list@)),
        None => None,
    }
}

impl PortFilter {
    /// The port range of the predicate: present only where both ends are.
    pub open spec fn port_range_spec(self) -> Option<(u16, u16)> {
        match (self.port_start, self.port_end) {
            (Some(start), Some(end)) => Some((start, end)),
            _ => None,
        }
    }

    /// The free-text query of the predicate: empty where none is given.
    pub open spec fn query_spec(self) -> Seq<char> {
        match self.query {
            Some(q) => q@,
            None => Seq::empty(),
        }
    }

    /// Whether the predicate selects the record.
    pub open spec fn selects(self, record: PortInfoView) -> bool {
        record_matches(
            record,
            self.query_spec(),
            text_view(self.protocol),
            text_view(self.state),
            self.port_range_spec(),
            owned_tags_view(self.tags),
            text_view(self.user),
        )
    }

    /// The predicate without any constraint.
    pub fn new() -> (filter: Self)
        ensures
            filter.query is None,
            filter.protocol is None,
            filter.state is None,
            filter.port_start is None,
            filter.port_end is None,
            filter.tags is None,
            filter.user is None,
    {
        PortFilter {
            query: None,
            protocol: None,
            state: None,
            port_start: None,
            port_end: None,
            tags: None,
            user: None,
        }
    }

    /// The port range of the predicate: present only where both ends are.
    pub fn port_range(&self) -> (range: Option<(u16, u16)>)
        ensures
            range == self.port_range_spec(),
    {
        match (self.port_start, self.port_end) {
            (Some(start), Some(end)) => Some((start, end)),
            _ => None,
        }
    }

    /// Whether the predicate selects the record.
    pub fn accepts(&self, record: &PortInfo) -> (result: bool)
        ensures
            result == self.selects(record@),
    {
        let protocol: Option<&str> = match &self.protocol {
            Some(p) => Some(p.as_str()),
            None => None,
        };
        let state: Option<&str> = match &self.state {
            Some(s) => Some(s.as_str()),
            None => None,
        };
        let tags: Option<&[String]> = match &self.tags {
            Some(list) => Some(list.as_slice()),
            None => None,
        };
        let user: Option<&str> = match &self.user {
            Some(u) => Some(u.as_str()),
            None => None,
        };
        let query: &str = match &self.query {
            Some(q) => q.as_str(),
            None => "",
        };
        proof {
            reveal_strlit("");
            assert(""@ =~= Seq::<char>::empty());
        }
        record.matches(query, protocol, state, self.port_range(), tags, user)
    }
}

/// A field that is absent imposes no constraint: the predicate without any
/// field selects every record.
pub proof fn lemma_empty_predicate_selects_all(filter: PortFilter, record: PortInfoView)
    requires
        filter.query is None,
        filter.protocol is None,
        filter.state is None,
        filter.port_start is None || filter.port_end is None,
        filter.tags is None,
        filter.user is None,
    ensures
        filter.selects(record),
{
}

/// The fields that are present must all hold: a record is selected exactly
/// if it meets each present field taken alone.
pub proof fn lemma_predicate_is_conjunction(
    record: PortInfoView,
    query: Seq<char>,
    protocol: Option<Seq<char>>,
    state: Option<Seq<char>>,
    port_range: Option<(u16, u16)>,
    tags: Option<Seq<Seq<char>>>,
    user: Option<Seq<char>>,
)
    ensures
        record_matches(record, query, protocol, state, port_range, tags, user) <==> {
            &&& record_matches(record, query, None, None, None, None, None)
            &&& record_matches(record, Seq::empty(), protocol, None, None, None, None)
            &&& record_matches(record, Seq::empty(), None, state, None, None, None)
            &&& record_matches(record, Seq::empty(), None, None, port_range, None, None)
            &&& record_matches(record, Seq::empty(), None, None, None, tags, None)
            &&& record_matches(record, Seq::empty(), None, None, None, None, user)
        },
{
}

/// The records of `ports` that the predicate selects, in their order: every
/// record that is returned meets the predicate, and no record that meets it
/// is left out.
pub fn filter_ports(ports: &Vec<PortInfo>, filter: &PortFilter) -> (selected: Vec<PortInfo>)
    ensures
        port_views(selected@) == port_views(ports@).filter(
            |record: PortInfoView| filter.selects(record),
        ),
        forall|i: int|
            0 <= i < selected@.len() ==> filter.selects(#[trigger] port_views(selected@)[i]),
        forall|i: int|
            0 <= i < ports@.len() && filter.selects(#[trigger] port_views(ports@)[i])
                ==> port_views(selected@).contains(port_views(ports@)[i]),
{
    let ghost pred = |record: PortInfoView| filter.selects(record);
    let mut selected: Vec<PortInfo> = Vec::new();
    let mut i: usize = 0;
    assert(port_views(ports@).take(0).filter(pred) =~= Seq::<PortInfoView>::empty()) by {
        broadcast use vstd::seq_lib::group_filter_ensures;

    }
    assert(port_views(selected@) =~= Seq::<PortInfoView>::empty());
    while i < ports.len()
        invariant
            i <= ports.len(),
            pred == |record: PortInfoView| filter.selects(record),
            port_views(selected@) == port_views(ports@).take(i as int).filter(pred),
        decreases ports.len() - i,
    {
        let ghost before = selected@;
        let ghost views = port_views(ports@);
        proof {
            assert(views.take(i + 1) == views.take(i as int).push(views[i as int]));
            views.take(i as int).lemma_filter_push(views[i as int], pred);
        }
        if filter.accepts(&ports[i]) {
            let copy = ports[i].clone();
            selected.push(copy);
            assert(port_views(selected@) =~= port_views(before).push(copy@));
        }
        i += 1;
    }
    assert(port_views(ports@).take(ports.len() as int) == port_views(ports@));
    proof {
        let views = port_views(ports@);
        assert forall|i: int| 0 <= i < selected@.len() implies filter.selects(
            #[trigger] port_views(selected@)[i],
        ) by {
            views.lemma_filter_pred(pred, i);
        }
        assert forall|i: int|
            0 <= i < ports@.len() && filter.selects(#[trigger] views[i]) implies port_views(
            selected@,
        ).contains(views[i]) by {
            views.lemma_filter_contains(pred, i);
        }
    }
    selected
}

} // verus!
