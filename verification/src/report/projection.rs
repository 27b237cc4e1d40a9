//! The rows of the report: the connections of a snapshot that the filters
//! accept, in the order asked for, each with the text of every column.

use crate::networking::aggregation_table::TableEntry;
use crate::networking::host_cache::HostEnrichmentCache;
use crate::networking::types::address_port_pair::AddressPortPair;
use crate::networking::types::data_representation::DataRepr;
use crate::networking::types::host::HostView;
use crate::networking::types::info_address_port_pair::InfoView;
use crate::networking::types::ip_address::IpAddress;
use crate::networking::types::protocol::Protocol;
use crate::networking::types::service::service_label;
use crate::report::sorting::{as_nats, as_ranks, precedes, sort_positions};
use crate::report::types::report_col::{port_text, ReportCol};
use crate::report::types::search_parameters::{FilterInputType, SearchParameters, SearchView};
use crate::report::types::sort_key::SortKey;
use crate::text::{chars_of, filter_accepts, filter_matches};
use crate::translations::types::labels::{Labels, LabelsView};
use crate::translations::types::language::Language;
use vstd::prelude::*;

verus! {

/// One row of the report: a connection of the snapshot and what each
/// column shows of it.
#[derive(Debug)]
pub struct ReportRow {
    /// Where the connection stands in the snapshot.
    pub position: usize,
    /// Address of the first end.
    pub src_ip: String,
    /// Port of the first end.
    pub src_port: String,
    /// Address of the second end.
    pub dst_ip: String,
    /// Port of the second end.
    pub dst_port: String,
    /// Protocol.
    pub proto: String,
    /// Upper layer service.
    pub service: String,
    /// Amount of traffic.
    pub data: String,
}

/// A row as the contracts speak of it.
pub struct RowView {
    pub position: nat,
    pub src_ip: Seq<char>,
    pub src_port: Seq<char>,
    pub dst_ip: Seq<char>,
    pub dst_port: Seq<char>,
    pub proto: Seq<char>,
    pub service: Seq<char>,
    pub data: Seq<char>,
}

impl View for ReportRow {
    type V = RowView;

    open spec fn view(&self) -> RowView {
        RowView {
            position: self.position as nat,
            src_ip: self.src_ip@,
            src_port: self.src_port@,
            dst_ip: self.dst_ip@,
            dst_port: self.dst_port@,
            proto: self.proto@,
            service: self.service@,
            data: self.data@,
        }
    }
}

impl RowView {
    /// What the row shows in the column.
    pub open spec fn cell(self, column: ReportCol) -> Seq<char> {
        match column {
            ReportCol::SrcIp => self.src_ip,
            ReportCol::SrcPort => self.src_port,
            ReportCol::DstIp => self.dst_ip,
            ReportCol::DstPort => self.dst_port,
            ReportCol::Proto => self.proto,
            ReportCol::Service => self.service,
            ReportCol::Data => self.data,
        }
    }
}

impl ReportRow {
    /// What the row shows in the column.
    pub fn cell(&self, column: ReportCol) -> (text: &String)
        ensures
            text@ == self@.cell(column),
    {
        match column {
            ReportCol::SrcIp => &self.src_ip,
            ReportCol::SrcPort => &self.src_port,
            ReportCol::DstIp => &self.dst_ip,
            ReportCol::DstPort => &self.dst_port,
            ReportCol::Proto => &self.proto,
            ReportCol::Service => &self.service,
            ReportCol::Data => &self.data,
        }
    }
}

/// The row of the connection at the given position of the snapshot: in
/// each column what the column shows of the connection.
pub open spec fn row_of(position: nat, key: AddressPortPair, val: InfoView, data_repr: DataRepr) -> RowView {
    RowView {
        position,
        src_ip: ReportCol::SrcIp.value(key, val, data_repr),
        src_port: ReportCol::SrcPort.value(key, val, data_repr),
        dst_ip: ReportCol::DstIp.value(key, val, data_repr),
        dst_port: ReportCol::DstPort.value(key, val, data_repr),
        proto: ReportCol::Proto.value(key, val, data_repr),
        service: ReportCol::Service.value(key, val, data_repr),
        data: ReportCol::Data.value(key, val, data_repr),
    }
}

/// Whether the country filter finds its text in the country of the host
/// that is known for the address.
pub open spec fn country_shown(
    filter: Seq<char>,
    hosts: Map<IpAddress, HostView>,
    address: IpAddress,
) -> bool {
    hosts.contains_key(address) && filter_accepts(filter, hosts[address].country.code())
}

impl FilterInputType {
    /// Whether the filter text given for this field accepts the
    /// connection. An empty text accepts every connection. Any other text
    /// accepts the connections in whose field it stands, upper-case and
    /// lower-case ASCII letters taken as equal; the field of the country
    /// filter is the country code of the host known for either end.
    pub open spec fn accepts(
        self,
        filters: SearchView,
        key: AddressPortPair,
        val: InfoView,
        hosts: Map<IpAddress, HostView>,
    ) -> bool {
        let filter = self.value_in(filters);
        match self {
            FilterInputType::AddressSrc => filter_accepts(filter, key.address1.text()),
            FilterInputType::PortSrc => filter_accepts(filter, port_text(key.port1)),
            FilterInputType::AddressDst => filter_accepts(filter, key.address2.text()),
            FilterInputType::PortDst => filter_accepts(filter, port_text(key.port2)),
            FilterInputType::Proto => filter_accepts(filter, key.protocol.name()),
            FilterInputType::Service => filter_accepts(filter, service_label(val.service)),
            FilterInputType::Country => filter.len() == 0 || country_shown(
                filter,
                hosts,
                key.address1,
            ) || country_shown(filter, hosts, key.address2),
        }
    }

    /// Tells whether the filter text given for this field accepts the
    /// connection.
    pub fn matches_entry(
        &self,
        filters: &SearchParameters,
        entry: &TableEntry,
        cache: &HostEnrichmentCache,
    ) -> (accepted: bool)
        requires
            cache.wf(),
        ensures
            accepted == self.accepts(filters@, entry.key, entry.info@, cache@.hosts),
    {
        let filter = self.current_value(filters);
        if filter.as_str().is_empty() {
            return true;
        }
        let column = match self {
            FilterInputType::AddressSrc => ReportCol::SrcIp,
            FilterInputType::PortSrc => ReportCol::SrcPort,
            FilterInputType::AddressDst => ReportCol::DstIp,
            FilterInputType::PortDst => ReportCol::DstPort,
            FilterInputType::Proto => ReportCol::Proto,
            FilterInputType::Service => ReportCol::Service,
            FilterInputType::Country => {
                return country_matches(filter.as_str(), cache, entry.key.address1)
                    || country_matches(filter.as_str(), cache, entry.key.address2);
            },
        };
        let value = column.get_value(&entry.key, &entry.info, DataRepr::Bytes);
        filter_matches(filter.as_str(), value.as_str())
    }
}

/// Tells whether the country filter finds its text in the country of the
/// host that is known for the address.
fn country_matches(filter: &str, cache: &HostEnrichmentCache, address: IpAddress) -> (shown: bool)
    requires
        cache.wf(),
    ensures
        shown == country_shown(filter@, cache@.hosts, address),
{
    match cache.host_of(address) {
        Some(host) => {
            let code = host.country.to_text();
            filter_matches(filter, code.as_str())
        },
        None => false,
    }
}

/// Whether every filter accepts the connection.
pub open spec fn entry_matches(
    filters: SearchView,
    key: AddressPortPair,
    val: InfoView,
    hosts: Map<IpAddress, HostView>,
) -> bool {
    &&& FilterInputType::AddressSrc.accepts(filters, key, val, hosts)
    &&& FilterInputType::PortSrc.accepts(filters, key, val, hosts)
    &&& FilterInputType::AddressDst.accepts(filters, key, val, hosts)
    &&& FilterInputType::PortDst.accepts(filters, key, val, hosts)
    &&& FilterInputType::Proto.accepts(filters, key, val, hosts)
    &&& FilterInputType::Service.accepts(filters, key, val, hosts)
    &&& FilterInputType::Country.accepts(filters, key, val, hosts)
}

impl SearchParameters {
    /// Tells whether every filter accepts the connection.
    pub fn matches(&self, entry: &TableEntry, cache: &HostEnrichmentCache) -> (accepted: bool)
        requires
            cache.wf(),
        ensures
            accepted == entry_matches(self@, entry.key, entry.info@, cache@.hosts),
    {
        FilterInputType::AddressSrc.matches_entry(self, entry, cache)
            && FilterInputType::PortSrc.matches_entry(self, entry, cache)
            && FilterInputType::AddressDst.matches_entry(self, entry, cache)
            && FilterInputType::PortDst.matches_entry(self, entry, cache)
            && FilterInputType::Proto.matches_entry(self, entry, cache)
            && FilterInputType::Service.matches_entry(self, entry, cache)
            && FilterInputType::Country.matches_entry(self, entry, cache)
    }
}

/// Rank of an address: IPv4 before IPv6, then by the number that the
/// address spells.
pub open spec fn address_rank(address: IpAddress) -> Seq<nat> {
    match address {
        IpAddress::V4(bits) => seq![0nat, bits as nat],
        IpAddress::V6(bits) => seq![1nat, bits as nat],
    }
}

/// Rank of a port: no port first, then by number.
pub open spec fn port_rank(port: Option<u16>) -> Seq<nat> {
    match port {
        None => seq![0nat],
        Some(number) => seq![1nat, number as nat],
    }
}

/// Rank of a text: its characters, so that texts stand in the order of the
/// dictionary.
pub open spec fn text_rank(text: Seq<char>) -> Seq<nat> {
    Seq::new(text.len(), |i: int| text[i] as nat)
}

/// Rank of a connection under the sort key. Without a key all connections
/// have the same rank.
pub open spec fn rank_for(
    sort_key: Option<SortKey>,
    key: AddressPortPair,
    val: InfoView,
    data_repr: DataRepr,
) -> Seq<nat> {
    match sort_key {
        None => Seq::empty(),
        Some(by) => match by.column {
            ReportCol::SrcIp => address_rank(key.address1),
            ReportCol::SrcPort => port_rank(key.port1),
            ReportCol::DstIp => address_rank(key.address2),
            ReportCol::DstPort => port_rank(key.port2),
            ReportCol::Proto => seq![key.protocol.rank()],
            ReportCol::Service => text_rank(service_label(val.service)),
            ReportCol::Data => seq![val.total(data_repr)],
        },
    }
}

/// The ranks of the connections of the snapshot, in order.
pub open spec fn ranks_of(
    entries: Seq<TableEntry>,
    sort_key: Option<SortKey>,
    data_repr: DataRepr,
) -> Seq<Seq<nat>> {
    Seq::new(
        entries.len(),
        |i: int| rank_for(sort_key, entries[i].key, entries[i].info@, data_repr),
    )
}

/// Whether the sort key asks for the rows from high to low.
pub open spec fn is_descending(sort_key: Option<SortKey>) -> bool {
    match sort_key {
        Some(by) => by.descending,
        None => false,
    }
}

/// The rank of an address.
fn address_rank_of(address: IpAddress) -> (rank: Vec<u128>)
    ensures
        as_nats(rank@) == address_rank(address),
{
    let mut rank: Vec<u128> = Vec::new();
    match address {
        IpAddress::V4(bits) => {
            rank.push(0);
            rank.push(bits as u128);
        },
        IpAddress::V6(bits) => {
            rank.push(1);
            rank.push(bits);
        },
    }
    assert(as_nats(rank@) =~= address_rank(address));
    rank
}

/// The rank of a port.
fn port_rank_of(port: Option<u16>) -> (rank: Vec<u128>)
    ensures
        as_nats(rank@) == port_rank(port),
{
    let mut rank: Vec<u128> = Vec::new();
    match port {
        None => {
            rank.push(0);
        },
        Some(number) => {
            rank.push(1);
            rank.push(number as u128);
        },
    }
    assert(as_nats(rank@) =~= port_rank(port));
    rank
}

/// The number of a character.
fn code_of(c: char) -> (code: u128)
    ensures
        code as nat == c as nat,
{
    let code: u32 = c as u32;
    code as u128
}

/// The rank of a text.
fn text_rank_of(text: &str) -> (rank: Vec<u128>)
    ensures
        as_nats(rank@) == text_rank(text@),
{
    let chars = chars_of(text);
    let mut rank: Vec<u128> = Vec::new();
    let mut i: usize = 0;
    while i < chars.len()
        invariant
            i <= chars.len(),
            chars@ == text@,
            rank.len() == i,
            forall|j: int| 0 <= j < i ==> rank@[j] as nat == text@[j] as nat,
        decreases chars.len() - i,
    {
        rank.push(code_of(chars[i]));
        i += 1;
    }
    assert(as_nats(rank@) =~= text_rank(text@));
    rank
}

/// The rank of a connection under the sort key.
fn rank_of(sort_key: Option<SortKey>, entry: &TableEntry, data_repr: DataRepr) -> (rank: Vec<u128>)
    ensures
        as_nats(rank@) == rank_for(sort_key, entry.key, entry.info@, data_repr),
{
    let by = match sort_key {
        Some(by) => by,
        None => {
            let rank: Vec<u128> = Vec::new();
            assert(as_nats(rank@) =~= Seq::<nat>::empty());
            return rank;
        },
    };
    match by.column {
        ReportCol::SrcIp => address_rank_of(entry.key.address1),
        ReportCol::SrcPort => port_rank_of(entry.key.port1),
        ReportCol::DstIp => address_rank_of(entry.key.address2),
        ReportCol::DstPort => port_rank_of(entry.key.port2),
        ReportCol::Proto => {
            let mut rank: Vec<u128> = Vec::new();
            rank.push(
                match entry.key.protocol {
                    Protocol::TCP => 0,
                    Protocol::UDP => 1,
                    Protocol::ICMP => 2,
                },
            );
            assert(as_nats(rank@) =~= seq![entry.key.protocol.rank()]);
            rank
        },
        ReportCol::Service => {
            let label = entry.info.service.to_text();
            text_rank_of(label.as_str())
        },
        ReportCol::Data => {
            let mut rank: Vec<u128> = Vec::new();
            rank.push(entry.info.transmitted_data(data_repr));
            assert(as_nats(rank@) =~= seq![entry.info@.total(data_repr)]);
            rank
        },
    }
}

/// Whether the rows are the report of the snapshot: each row is the row
/// of a connection that every filter accepts, each such connection has a
/// row, and the rows stand in the order of the sort key, connections of
/// equal rank in the order of the snapshot.
pub open spec fn is_report(
    rows: Seq<RowView>,
    entries: Seq<TableEntry>,
    hosts: Map<IpAddress, HostView>,
    filters: SearchView,
    sort_key: Option<SortKey>,
    data_repr: DataRepr,
) -> bool {
    &&& forall|i: int|
        0 <= i < rows.len() ==> {
            let p = (#[trigger] rows[i]).position as int;
            &&& p < entries.len()
            &&& entry_matches(filters, entries[p].key, entries[p].info@, hosts)
            &&& rows[i] == row_of(p as nat, entries[p].key, entries[p].info@, data_repr)
        }
    &&& forall|p: int|
        0 <= p < entries.len() && entry_matches(
            filters,
            (#[trigger] entries[p]).key,
            entries[p].info@,
            hosts,
        ) ==> exists|i: int| 0 <= i < rows.len() && (#[trigger] rows[i]).position == p
    &&& forall|i: int, j: int|
        0 <= i < j < rows.len() ==> precedes(
            ranks_of(entries, sort_key, data_repr),
            is_descending(sort_key),
            (#[trigger] rows[i]).position as int,
            (#[trigger] rows[j]).position as int,
        )
}

/// The rows as the contracts speak of them, in order.
pub open spec fn row_views(rows: Seq<ReportRow>) -> Seq<RowView> {
    Seq::new(rows.len(), |i: int| rows[i]@)
}

/// The row of the connection at the given position of the snapshot.
fn make_row(position: usize, entry: &TableEntry, data_repr: DataRepr) -> (row: ReportRow)
    ensures
        row@ == row_of(position as nat, entry.key, entry.info@, data_repr),
{
    ReportRow {
        position,
        src_ip: ReportCol::SrcIp.get_value(&entry.key, &entry.info, data_repr),
        src_port: ReportCol::SrcPort.get_value(&entry.key, &entry.info, data_repr),
        dst_ip: ReportCol::DstIp.get_value(&entry.key, &entry.info, data_repr),
        dst_port: ReportCol::DstPort.get_value(&entry.key, &entry.info, data_repr),
        proto: ReportCol::Proto.get_value(&entry.key, &entry.info, data_repr),
        service: ReportCol::Service.get_value(&entry.key, &entry.info, data_repr),
        data: ReportCol::Data.get_value(&entry.key, &entry.info, data_repr),
    }
}

/// The rows of the report of a snapshot: one for each connection that
/// every filter accepts, sorted by the sort key, connections of equal rank
/// in the order of the snapshot. Without a sort key the rows keep the
/// order of the snapshot.
pub fn rows(
    snapshot: &Vec<TableEntry>,
    cache: &HostEnrichmentCache,
    filters: &SearchParameters,
    sort_key: Option<SortKey>,
    data_repr: DataRepr,
) -> (rows: Vec<ReportRow>)
    requires
        cache.wf(),
    ensures
        is_report(row_views(rows@), snapshot@, cache@.hosts, filters@, sort_key, data_repr),
        rows.len() <= snapshot.len(),
{
    let ghost hosts = cache@.hosts;
    let mut selected: Vec<usize> = Vec::new();
    let mut ranks: Vec<Vec<u128>> = Vec::new();
    let mut p: usize = 0;
    while p < snapshot.len()
        invariant
            p <= snapshot.len(),
            cache.wf(),
            hosts == cache@.hosts,
            ranks.len() == p,
            selected.len() <= p,
            forall|i: int|
                0 <= i < p ==> as_nats((#[trigger] ranks@[i])@) == rank_for(
                    sort_key,
                    snapshot@[i].key,
                    snapshot@[i].info@,
                    data_repr,
                ),
            forall|i: int|
                0 <= i < selected.len() ==> (#[trigger] selected@[i]) < p && entry_matches(
                    filters@,
                    snapshot@[selected@[i] as int].key,
                    snapshot@[selected@[i] as int].info@,
                    hosts,
                ),
            forall|i: int, j: int|
                0 <= i < j < selected.len() ==> (#[trigger] selected@[i]) < (
                #[trigger] selected@[j]),
            forall|q: int|
                0 <= q < p && entry_matches(
                    filters@,
                    (#[trigger] snapshot@[q]).key,
                    snapshot@[q].info@,
                    hosts,
                ) ==> selected@.contains(q as usize),
        decreases snapshot.len() - p,
    {
        ranks.push(rank_of(sort_key, &snapshot[p], data_repr));
        if filters.matches(&snapshot[p], cache) {
            let ghost before = selected@;
            selected.push(p);
            assert forall|q: int|
                0 <= q < p + 1 && entry_matches(
                    filters@,
                    (#[trigger] snapshot@[q]).key,
                    snapshot@[q].info@,
                    hosts,
                ) implies selected@.contains(q as usize) by {
                if q < p {
                    assert(before.contains(q as usize));
                    let i = choose|i: int| 0 <= i < before.len() && before[i] == q as usize;
                    assert(selected@[i] == q as usize);
                } else {
                    assert(selected@[selected@.len() - 1] == q as usize);
                }
            }
        }
        p += 1;
    }
    assert(as_ranks(ranks@) =~= ranks_of(snapshot@, sort_key, data_repr));
    let descending = match sort_key {
        Some(by) => by.descending,
        None => false,
    };
    let order = sort_positions(&selected, &ranks, descending);
    proof {
        assert forall|i: int| 0 <= i < order.len() implies (#[trigger] order@[i]) < snapshot.len()
            && entry_matches(
            filters@,
            snapshot@[order@[i] as int].key,
            snapshot@[order@[i] as int].info@,
            hosts,
        ) by {
            assert(order@.contains(order@[i]));
            let j = choose|j: int| 0 <= j < selected.len() && selected@[j] == order@[i];
            assert(selected@[j] == order@[i]);
        }
    }
    let mut rows: Vec<ReportRow> = Vec::new();
    let mut i: usize = 0;
    while i < order.len()
        invariant
            i <= order.len(),
            rows.len() == i,
            order.len() <= snapshot.len(),
            forall|k: int| 0 <= k < order.len() ==> (#[trigger] order@[k]) < snapshot.len(),
            forall|k: int|
                0 <= k < i ==> (#[trigger] rows@[k])@ == row_of(
                    order@[k] as nat,
                    snapshot@[order@[k] as int].key,
                    snapshot@[order@[k] as int].info@,
                    data_repr,
                ),
        decreases order.len() - i,
    {
        let position = order[i];
        rows.push(make_row(position, &snapshot[position], data_repr));
        i += 1;
    }
    proof {
        let views = row_views(rows@);
        assert forall|k: int| 0 <= k < views.len() implies (#[trigger] views[k]).position
            == order@[k] as nat by {
            assert(views[k] == rows@[k]@);
        }
        assert forall|k: int| 0 <= k < views.len() implies {
            let q = (#[trigger] views[k]).position as int;
            &&& q < snapshot@.len()
            &&& entry_matches(filters@, snapshot@[q].key, snapshot@[q].info@, hosts)
            &&& views[k] == row_of(q as nat, snapshot@[q].key, snapshot@[q].info@, data_repr)
        } by {
            assert(views[k] == rows@[k]@);
            assert(order@[k] < snapshot.len());
        }
        assert forall|q: int|
            0 <= q < snapshot@.len() && entry_matches(
                filters@,
                (#[trigger] snapshot@[q]).key,
                snapshot@[q].info@,
                hosts,
            ) implies exists|k: int| 0 <= k < views.len() && (#[trigger] views[k]).position == q by {
            assert(selected@.contains(q as usize));
            assert(order@.contains(q as usize));
            let k = choose|k: int| 0 <= k < order.len() && order@[k] == q as usize;
            assert(views[k].position == q);
        }
        assert forall|a: int, b: int| 0 <= a < b < views.len() implies precedes(
            ranks_of(snapshot@, sort_key, data_repr),
            is_descending(sort_key),
            (#[trigger] views[a]).position as int,
            (#[trigger] views[b]).position as int,
        ) by {
            assert(views[a].position == order@[a] as nat);
            assert(views[b].position == order@[b] as nat);
            assert(precedes(
                as_ranks(ranks@),
                descending,
                order@[a] as int,
                order@[b] as int,
            ));
        }
    }
    rows
}

/// What stands above one column of the report.
#[derive(Debug)]
pub struct ColumnHeader {
    /// The column.
    pub column: ReportCol,
    /// The column's title.
    pub title: String,
    /// What follows the title to tell the two ends apart.
    pub direction_info: String,
    /// The column's width.
    pub width: u32,
    /// Most characters that the column shows.
    pub max_chars: usize,
}

/// A header as the contracts speak of it.
pub struct HeaderView {
    pub column: ReportCol,
    pub title: Seq<char>,
    pub direction_info: Seq<char>,
    pub width: nat,
    pub max_chars: nat,
}

impl View for ColumnHeader {
    type V = HeaderView;

    open spec fn view(&self) -> HeaderView {
        HeaderView {
            column: self.column,
            title: self.title@,
            direction_info: self.direction_info@,
            width: self.width as nat,
            max_chars: self.max_chars as nat,
        }
    }
}

/// The header of a column in the language of the given words.
pub open spec fn header_of(
    column: ReportCol,
    labels: LabelsView,
    data_repr: DataRepr,
    language: Language,
) -> HeaderView {
    HeaderView {
        column,
        title: column.title(labels, data_repr),
        direction_info: column.title_direction_info(labels),
        width: column.width(),
        max_chars: column.max_chars(Some(language)),
    }
}

/// The headers of the seven columns, in the order of the report.
pub fn headers(labels: &Labels, data_repr: DataRepr, language: Language) -> (headers: Vec<
    ColumnHeader,
>)
    ensures
        headers.len() == 7,
        forall|i: int|
            0 <= i < 7 ==> (#[trigger] headers@[i])@ == header_of(
                ReportCol::columns()[i],
                labels@,
                data_repr,
                language,
            ),
{
    let columns = ReportCol::all();
    let mut headers: Vec<ColumnHeader> = Vec::new();
    let mut i: usize = 0;
    while i < columns.len()
        invariant
            i <= columns.len(),
            columns@ == ReportCol::columns(),
            columns.len() == 7,
            headers.len() == i,
            forall|k: int|
                0 <= k < i ==> (#[trigger] headers@[k])@ == header_of(
                    ReportCol::columns()[k],
                    labels@,
                    data_repr,
                    language,
                ),
        decreases columns.len() - i,
    {
        let column = columns[i];
        headers.push(
            ColumnHeader {
                column,
                title: column.get_title(labels, data_repr),
                direction_info: column.get_title_direction_info(labels),
                width: column.get_width(),
                max_chars: column.get_max_chars(Some(language)),
            },
        );
        i += 1;
    }
    headers
}

} // verus!
