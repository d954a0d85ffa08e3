//! Routing rows, and the entries that the table keeps of them.

use crate::error::{Error, FilterKind};
use crate::router::filter::{
    be32, eui_member, DevAddrFilter, Eui, EuiFilter, DEV_ADDR_FILTER_BYTES,
};
use crate::router::{mk_router_client, uri_parses, uris, RouterClient};
use std::collections::HashMap;
use vstd::prelude::*;
use vstd::seq_lib::lemma_multiset_commutative;
use vstd::std_specs::iter::IteratorSpec;

verus! {

broadcast use vstd::std_specs::hash::group_hash_axioms;

/// What an uplink is routed by.
#[derive(Clone, Copy, Debug, PartialEq, Eq, Structural)]
pub enum RoutingKey {
    /// The identifiers of a join request.
    Eui(Eui),
    /// The address of a device that has joined.
    DevAddr(u32),
}

/// The routing part of an uplink. A frame may carry it and still name no key.
#[derive(Clone, Copy, Debug, PartialEq, Eq, Structural)]
pub struct RoutingInformation {
    pub data: Option<RoutingKey>,
}

/// The address of one router, as the control plane gives it.
#[derive(Debug, PartialEq, Eq)]
pub struct RoutingAddress {
    pub uri: Vec<u8>,
}

/// One row of a routing update: who subscribes to what, and where they are.
#[derive(Debug, PartialEq, Eq)]
pub struct RoutingRow {
    pub oui: u32,
    pub filters: Vec<Vec<u8>>,
    pub subnets: Vec<Vec<u8>>,
    pub addresses: Vec<RoutingAddress>,
}

/// A row as plain values.
pub struct RowView {
    pub oui: u32,
    pub filters: Seq<Seq<u8>>,
    pub subnets: Seq<Seq<u8>>,
    pub addresses: Seq<Seq<u8>>,
}

impl View for RoutingRow {
    type V = RowView;

    open spec fn view(&self) -> RowView {
        RowView {
            oui: self.oui,
            filters: self.filters@.map_values(|b: Vec<u8>| b@),
            subnets: self.subnets@.map_values(|b: Vec<u8>| b@),
            addresses: self.addresses@.map_values(|a: RoutingAddress| a.uri@),
        }
    }
}

/// One entry of the routing table: the filters of one organisation and the
/// routers that serve it. An entry is never changed, only replaced.
#[derive(Debug, PartialEq, Eq)]
pub struct Routing {
    filters: Vec<EuiFilter>,
    subnets: Vec<DevAddrFilter>,
    clients: Vec<RouterClient>,
}

/// An entry as plain values.
pub struct RoutingView {
    pub filters: Seq<Seq<u8>>,
    pub subnets: Seq<DevAddrFilter>,
    pub clients: Seq<Seq<u8>>,
}

impl View for Routing {
    type V = RoutingView;

    closed spec fn view(&self) -> RoutingView {
        RoutingView {
            filters: self.filters@.map_values(|f: EuiFilter| f@),
            subnets: self.subnets@,
            clients: uris(self.clients@),
        }
    }
}

/// The device address filter that a blob of `DEV_ADDR_FILTER_BYTES` bytes
/// spells.
pub open spec fn subnet_of(blob: Seq<u8>) -> DevAddrFilter {
    DevAddrFilter {
        base: be32(blob.subrange(0, 4)) as u32,
        mask: be32(blob.subrange(4, 8)) as u32,
    }
}

/// Every blob is an EUI filter.
pub open spec fn filters_ok(filters: Seq<Seq<u8>>) -> bool {
    forall|i: int| 0 <= i < filters.len() ==> (#[trigger] filters[i]).len() > 0
}

/// Every blob is a device address filter.
pub open spec fn subnets_ok(subnets: Seq<Seq<u8>>) -> bool {
    forall|i: int|
        0 <= i < subnets.len() ==> (#[trigger] subnets[i]).len() == DEV_ADDR_FILTER_BYTES
}

/// Every address is a URI.
pub open spec fn addresses_ok(addresses: Seq<Seq<u8>>) -> bool {
    forall|i: int| 0 <= i < addresses.len() ==> uri_parses(#[trigger] addresses[i])
}

/// Why no entry can be built from `row`, if none can: the filters are
/// looked at first, then the subnets, then the addresses.
pub open spec fn row_error(row: RowView) -> Option<Error> {
    if !filters_ok(row.filters) {
        Some(Error::FilterError(FilterKind::Eui))
    } else if !subnets_ok(row.subnets) {
        Some(Error::FilterError(FilterKind::DevAddr))
    } else if !addresses_ok(row.addresses) {
        Some(Error::UriError)
    } else {
        None
    }
}

/// The entry that is built from a row without fault.
pub open spec fn entry_of(row: RowView) -> RoutingView {
    RoutingView {
        filters: row.filters,
        subnets: row.subnets.map_values(|b: Seq<u8>| subnet_of(b)),
        clients: row.addresses,
    }
}

/// Whether one of the entry's filters holds the key: the EUI filters for a
/// pair of EUIs, the subnets for a device address.
pub open spec fn entry_matches(entry: RoutingView, key: RoutingKey) -> bool {
    match key {
        RoutingKey::Eui(eui) => exists|i: int|
            0 <= i < entry.filters.len() && eui_member(#[trigger] entry.filters[i], eui),
        RoutingKey::DevAddr(dev_addr) => exists|i: int|
            0 <= i < entry.subnets.len() && (#[trigger] entry.subnets[i]).member(dev_addr),
    }
}

impl Routing {
    #[verifier::type_invariant]
    spec fn sound(self) -> bool {
        addresses_ok(uris(self.clients@))
    }

    /// Builds the entry for a row: every filter and subnet is rebuilt from
    /// its blob and every address is checked. One fault spoils the row.
    pub fn from_proto(row: &RoutingRow) -> (r: Result<Routing, Error>)
        ensures
            match r {
                Ok(entry) => row_error(row@) is None && entry@ == entry_of(row@),
                Err(e) => row_error(row@) == Some(e),
            },
    {
        let mut filters: Vec<EuiFilter> = Vec::new();
        for i in 0..row.filters.len()
            invariant
                filters@.len() == i,
                forall|j: int| 0 <= j < i ==> (#[trigger] row@.filters[j]).len() > 0,
                forall|j: int| 0 <= j < i ==> (#[trigger] filters@[j])@ == row@.filters[j],
        {
            match EuiFilter::from_bin(row.filters[i].as_slice()) {
                Ok(filter) => filters.push(filter),
                Err(e) => {
                    assert(row@.filters[i as int].len() == 0);
                    return Err(e);
                },
            }
        }
        let mut subnets: Vec<DevAddrFilter> = Vec::new();
        for i in 0..row.subnets.len()
            invariant
                filters_ok(row@.filters),
                subnets@.len() == i,
                forall|j: int|
                    0 <= j < i ==> (#[trigger] row@.subnets[j]).len() == DEV_ADDR_FILTER_BYTES,
                forall|j: int| 0 <= j < i ==> #[trigger] subnets@[j] == subnet_of(row@.subnets[j]),
        {
            match DevAddrFilter::from_bin(row.subnets[i].as_slice()) {
                Ok(subnet) => subnets.push(subnet),
                Err(e) => {
                    assert(row@.subnets[i as int].len() != DEV_ADDR_FILTER_BYTES);
                    return Err(e);
                },
            }
        }
        let mut clients: Vec<RouterClient> = Vec::new();
        for i in 0..row.addresses.len()
            invariant
                filters_ok(row@.filters),
                subnets_ok(row@.subnets),
                clients@.len() == i,
                forall|j: int| 0 <= j < i ==> uri_parses(#[trigger] row@.addresses[j]),
                forall|j: int| 0 <= j < i ==> (#[trigger] clients@[j])@ == row@.addresses[j],
        {
            match mk_router_client(row.addresses[i].uri.as_slice()) {
                Ok(client) => clients.push(client),
                Err(e) => {
                    assert(!uri_parses(row@.addresses[i as int]));
                    return Err(e);
                },
            }
        }
        assert(uris(clients@) =~= row@.addresses);
        let entry = Routing { filters, subnets, clients };
        assert(entry@.filters =~= row@.filters);
        assert(entry@.subnets =~= entry_of(row@).subnets);
        assert(entry@.clients =~= row@.addresses);
        Ok(entry)
    }

    /// Whether the entry subscribes to the key.
    pub fn matches_routing_data(&self, routing_data: &RoutingKey) -> (b: bool)
        ensures
            b == entry_matches(self@, *routing_data),
    {
        match routing_data {
            RoutingKey::Eui(eui) => {
                for i in 0..self.filters.len()
                    invariant
                        *routing_data == RoutingKey::Eui(*eui),
                        forall|j: int|
                            0 <= j < i ==> !eui_member(#[trigger] self@.filters[j], *eui),
                {
                    if self.filters[i].contains(eui) {
                        assert(eui_member(self@.filters[i as int], *eui));
                        return true;
                    }
                }
                false
            },
            RoutingKey::DevAddr(dev_addr) => {
                for i in 0..self.subnets.len()
                    invariant
                        *routing_data == RoutingKey::DevAddr(*dev_addr),
                        forall|j: int|
                            0 <= j < i ==> !(#[trigger] self@.subnets[j]).member(*dev_addr),
                {
                    if self.subnets[i].contains(*dev_addr) {
                        assert(self@.subnets[i as int].member(*dev_addr));
                        return true;
                    }
                }
                false
            },
        }
    }

    /// The routers that serve the entry. Each of them has a URI for its
    /// address.
    pub fn clients(&self) -> (clients: &Vec<RouterClient>)
        ensures
            uris(clients@) == self@.clients,
            addresses_ok(self@.clients),
    {
        proof {
            use_type_invariant(self);
        }
        &self.clients
    }
}

/// One message of the control plane's routing feed.
#[derive(Debug, PartialEq, Eq)]
pub struct RoutingResponse {
    pub height: u64,
    pub routings: Vec<RoutingRow>,
}

/// A routing message as plain values.
pub struct ResponseView {
    pub height: u64,
    pub routings: Seq<RowView>,
}

impl View for RoutingResponse {
    type V = ResponseView;

    open spec fn view(&self) -> ResponseView {
        ResponseView {
            height: self.height,
            routings: self.routings@.map_values(|r: RoutingRow| r@),
        }
    }
}

/// The table after one more row: a row that builds replaces whatever its
/// OUI had, a row that does not changes nothing.
pub open spec fn apply_row(entries: Map<u32, RoutingView>, row: RowView) -> Map<u32, RoutingView> {
    if row_error(row) is None {
        entries.insert(row.oui, entry_of(row))
    } else {
        entries
    }
}

/// The table after `rows`, taken first to last.
pub open spec fn apply_rows(entries: Map<u32, RoutingView>, rows: Seq<RowView>) -> Map<
    u32,
    RoutingView,
>
    decreases rows.len(),
{
    if rows.len() == 0 {
        entries
    } else {
        apply_row(apply_rows(entries, rows.drop_last()), rows.last())
    }
}

/// The rows that build no entry, each with its OUI and its fault, in order.
pub open spec fn skipped_rows(rows: Seq<RowView>) -> Seq<(u32, Error)>
    decreases rows.len(),
{
    if rows.len() == 0 {
        Seq::empty()
    } else {
        let before = skipped_rows(rows.drop_last());
        match row_error(rows.last()) {
            Some(e) => before.push((rows.last().oui, e)),
            None => before,
        }
    }
}

/// The routing table as plain values.
pub struct TableView {
    pub height: u64,
    pub entries: Map<u32, RoutingView>,
}

/// The table after one routing message. The height is taken from the
/// message whether or not it is newer than the table's.
pub open spec fn apply_response(table: TableView, response: ResponseView) -> TableView {
    TableView { height: response.height, entries: apply_rows(table.entries, response.routings) }
}

/// The clients of the entries that match `key`, the entries taken in the
/// order of `order`.
pub open spec fn targets_in_order(
    entries: Map<u32, RoutingView>,
    order: Seq<u32>,
    key: RoutingKey,
) -> Seq<Seq<u8>>
    decreases order.len(),
{
    if order.len() == 0 {
        Seq::empty()
    } else {
        let before = targets_in_order(entries, order.drop_last(), key);
        let entry = entries[order.last()];
        if entry_matches(entry, key) {
            before + entry.clients
        } else {
            before
        }
    }
}

/// `order` names every OUI of the table once.
pub open spec fn is_walk(entries: Map<u32, RoutingView>, order: Seq<u32>) -> bool {
    order.no_duplicates() && order.to_set() == entries.dom()
}

/// No entry of the table subscribes to `key`.
pub open spec fn no_match(entries: Map<u32, RoutingView>, key: RoutingKey) -> bool {
    forall|oui: u32| entries.contains_key(oui) ==> !entry_matches(#[trigger] entries[oui], key)
}

/// What one routing message did to the table.
#[derive(Debug, PartialEq, Eq)]
pub struct UpdateReport {
    /// The height that the table now has.
    pub height: u64,
    /// The message was not newer than the table: worth a warning.
    pub stale: bool,
    /// The rows that were passed over, each worth a warning.
    pub skipped: Vec<(u32, Error)>,
}

/// The routing table: one entry per OUI, and the height of the last
/// message that was applied.
#[derive(Debug)]
pub struct RoutingTable {
    height: u64,
    entries: HashMap<u32, Routing>,
}

impl View for RoutingTable {
    type V = TableView;

    closed spec fn view(&self) -> TableView {
        TableView { height: self.height, entries: self.entries@.map_values(|r: Routing| r@) }
    }
}

impl RoutingTable {
    /// The empty table, at height 0.
    pub fn new() -> (table: RoutingTable)
        ensures
            table@.height == 0,
            table@.entries == Map::<u32, RoutingView>::empty(),
    {
        let table = RoutingTable { height: 0, entries: HashMap::new() };
        assert(table@.entries =~= Map::<u32, RoutingView>::empty());
        table
    }

    /// The height of the last message that was applied.
    pub fn height(&self) -> (height: u64)
        ensures
            height == self@.height,
    {
        self.height
    }

    /// The number of entries.
    pub fn len(&self) -> (n: usize)
        ensures
            n == self@.entries.dom().len(),
    {
        assert(self@.entries.dom() =~= self.entries@.dom());
        self.entries.len()
    }

    /// Applies one routing message: every row that builds an entry replaces
    /// the entry of its OUI, and the table takes the message's height, stale
    /// or not.
    pub fn update(&mut self, response: &RoutingResponse) -> (report: UpdateReport)
        ensures
            final(self)@ == apply_response(old(self)@, response@),
            report.height == response.height,
            report.stale == (response.height <= old(self)@.height),
            report.skipped@ == skipped_rows(response@.routings),
    {
        let stale = response.height <= self.height;
        let mut skipped: Vec<(u32, Error)> = Vec::new();
        for i in 0..response.routings.len()
            invariant
                self@.entries == apply_rows(old(self)@.entries, response@.routings.take(i as int)),
                skipped@ == skipped_rows(response@.routings.take(i as int)),
        {
            let row = &response.routings[i];
            proof {
                let rows = response@.routings;
                assert(rows.take(i + 1).drop_last() == rows.take(i as int));
                assert(rows.take(i + 1).last() == row@);
            }
            match Routing::from_proto(row) {
                Ok(entry) => {
                    let ghost before = self.entries@;
                    self.entries.insert(row.oui, entry);
                    assert(self@.entries =~= before.map_values(|r: Routing| r@).insert(
                        row.oui,
                        entry_of(row@),
                    ));
                },
                Err(e) => {
                    skipped.push((row.oui, e));
                },
            }
        }
        assert(response@.routings.take(response.routings.len() as int) == response@.routings);
        self.height = response.height;
        UpdateReport { height: response.height, stale, skipped }
    }

    /// The OUIs of the table, each once, in the order in which the table
    /// happens to be walked.
    pub fn ouis(&self) -> (order: Vec<u32>)
        ensures
            is_walk(self@.entries, order@),
    {
        let mut order: Vec<u32> = Vec::new();
        for oui in it: self.entries.keys()
            invariant
                order@.len() == it.index(),
                forall|i: int| 0 <= i < order@.len() ==> order@[i] == *it.seq()[i],
        {
            order.push(*oui);
        }
        assert(order@ == self.entries.keys().remaining().unref());
        assert(self@.entries.dom() =~= self.entries@.dom());
        order
    }

    /// The routers of every entry that subscribes to `key`. The same router
    /// is named as often as matching entries name it, and each has a URI for
    /// its address.
    pub fn clients_for(&self, key: &RoutingKey) -> (found: Vec<RouterClient>)
        ensures
            exists|order: Seq<u32>| #[trigger]
                is_walk(self@.entries, order) && uris(found@) == targets_in_order(
                    self@.entries,
                    order,
                    *key,
                ),
            no_match(self@.entries, *key) ==> found@.len() == 0,
            addresses_ok(uris(found@)),
    {
        let order = self.ouis();
        let mut found: Vec<RouterClient> = Vec::new();
        for i in 0..order.len()
            invariant
                is_walk(self@.entries, order@),
                uris(found@) == targets_in_order(self@.entries, order@.take(i as int), *key),
                addresses_ok(uris(found@)),
        {
            proof {
                assert(order@.take(i + 1).drop_last() == order@.take(i as int));
                assert(order@.take(i + 1).last() == order@[i as int]);
                assert(order@.to_set().contains(order@[i as int]));
            }
            match self.entries.get(&order[i]) {
                Some(entry) => {
                    assert(entry@ == self@.entries[order@[i as int]]);
                    if entry.matches_routing_data(key) {
                        let clients = entry.clients();
                        let ghost before = uris(found@);
                        for j in 0..clients.len()
                            invariant
                                uris(found@) == before + uris(clients@).take(j as int),
                                addresses_ok(before),
                                addresses_ok(uris(clients@)),
                        {
                            let ghost so_far = found@;
                            found.push(clients[j].clone());
                            assert(uris(found@) =~= uris(so_far).push(clients@[j as int]@));
                            assert(uris(clients@).take(j + 1) =~= uris(clients@).take(
                                j as int,
                            ).push(clients@[j as int]@));
                        }
                        assert(uris(clients@).take(clients.len() as int) == uris(clients@));
                        assert(addresses_ok(uris(found@))) by {
                            assert forall|n: int| 0 <= n < uris(found@).len() implies uri_parses(
                                #[trigger] uris(found@)[n],
                            ) by {
                                if n < before.len() {
                                    assert(uris(found@)[n] == before[n]);
                                } else {
                                    assert(uris(found@)[n] == uris(clients@)[n - before.len()]);
                                }
                            }
                        }
                    }
                },
                None => {
                    assert(false);
                },
            }
        }
        assert(order@.take(order.len() as int) == order@);
        proof {
            if no_match(self@.entries, *key) {
                lemma_no_match_no_targets(self@.entries, order@, *key);
            }
        }
        found
    }
}

/// Where nothing matches, nothing is targeted, whatever the order.
pub proof fn lemma_no_match_no_targets(
    entries: Map<u32, RoutingView>,
    order: Seq<u32>,
    key: RoutingKey,
)
    requires
        no_match(entries, key),
        forall|i: int| 0 <= i < order.len() ==> entries.contains_key(#[trigger] order[i]),
    ensures
        targets_in_order(entries, order, key).len() == 0,
    decreases order.len(),
{
    if order.len() > 0 {
        lemma_no_match_no_targets(entries, order.drop_last(), key);
        assert(entries.contains_key(order[order.len() - 1]));
    }
}

/// Where nothing matches, a walk of the table finds nobody.
pub proof fn lemma_walk_without_match(
    entries: Map<u32, RoutingView>,
    order: Seq<u32>,
    key: RoutingKey,
)
    requires
        is_walk(entries, order),
        no_match(entries, key),
    ensures
        targets_in_order(entries, order, key).len() == 0,
{
    assert forall|i: int| 0 <= i < order.len() implies entries.contains_key(
        #[trigger] order[i],
    ) by {
        assert(order.to_set().contains(order[i]));
    }
    lemma_no_match_no_targets(entries, order, key);
}

/// The clients that `oui` adds to the targets of `key`.
pub open spec fn targets_of(entries: Map<u32, RoutingView>, oui: u32, key: RoutingKey) -> Seq<
    Seq<u8>,
> {
    if entry_matches(entries[oui], key) {
        entries[oui].clients
    } else {
        Seq::empty()
    }
}

/// A walk in two parts finds what the parts find, one after the other.
pub proof fn lemma_targets_concat(
    entries: Map<u32, RoutingView>,
    first: Seq<u32>,
    second: Seq<u32>,
    key: RoutingKey,
)
    ensures
        targets_in_order(entries, first + second, key) == targets_in_order(entries, first, key)
            + targets_in_order(entries, second, key),
    decreases second.len(),
{
    if second.len() == 0 {
        assert(first + second == first);
        assert(targets_in_order(entries, first, key) + Seq::<Seq<u8>>::empty()
            == targets_in_order(entries, first, key));
    } else {
        lemma_targets_concat(entries, first, second.drop_last(), key);
        assert((first + second).drop_last() == first + second.drop_last());
        assert((first + second).last() == second.last());
        let a = targets_in_order(entries, first, key);
        let b = targets_in_order(entries, second.drop_last(), key);
        let c = targets_of(entries, second.last(), key);
        assert((a + b) + c == a + (b + c));
        assert(b + Seq::<Seq<u8>>::empty() == b);
        assert((a + b) + Seq::<Seq<u8>>::empty() == a + b);
    }
}

/// Two orders that name the same OUIs, each once, find the same clients,
/// each as often.
pub proof fn lemma_targets_of_permutation(
    entries: Map<u32, RoutingView>,
    first: Seq<u32>,
    second: Seq<u32>,
    key: RoutingKey,
)
    requires
        first.no_duplicates(),
        second.no_duplicates(),
        first.to_set() == second.to_set(),
    ensures
        targets_in_order(entries, first, key).to_multiset() == targets_in_order(
            entries,
            second,
            key,
        ).to_multiset(),
    decreases first.len(),
{
    if first.len() == 0 {
        if second.len() > 0 {
            assert(second.to_set().contains(second[0]));
            assert(first.to_set().contains(second[0]));
        }
    } else {
        let x = first.last();
        let front = first.drop_last();
        assert(first.to_set().contains(first[first.len() - 1]));
        assert(second.to_set().contains(x));
        let k = choose|k: int| 0 <= k < second.len() && second[k] == x;
        let left = second.subrange(0, k);
        let right = second.subrange(k + 1, second.len() as int);
        let rest = left + right;
        assert(second == (left + seq![x]) + right);
        assert(rest.no_duplicates()) by {
            assert forall|i: int, j: int|
                0 <= i < rest.len() && 0 <= j < rest.len() && i != j implies rest[i]
                != rest[j] by {
                let si = if i < k {
                    i
                } else {
                    i + 1
                };
                let sj = if j < k {
                    j
                } else {
                    j + 1
                };
                assert(rest[i] == second[si]);
                assert(rest[j] == second[sj]);
            }
        }
        assert(front.to_set() =~= rest.to_set()) by {
            assert forall|o: u32| front.to_set().contains(o) implies rest.to_set().contains(
                o,
            ) by {
                let i = choose|i: int| 0 <= i < front.len() && front[i] == o;
                assert(first[i] == o);
                assert(o != x);
                assert(first.to_set().contains(o));
                let j = choose|j: int| 0 <= j < second.len() && second[j] == o;
                if j < k {
                    assert(rest[j] == o);
                } else {
                    assert(rest[j - 1] == o);
                }
            }
            assert forall|o: u32| rest.to_set().contains(o) implies front.to_set().contains(
                o,
            ) by {
                let j = choose|j: int| 0 <= j < rest.len() && rest[j] == o;
                let sj = if j < k {
                    j
                } else {
                    j + 1
                };
                assert(second[sj] == o);
                assert(second.to_set().contains(o));
                let i = choose|i: int| 0 <= i < first.len() && first[i] == o;
                assert(front[i] == o);
            }
        }
        lemma_targets_of_permutation(entries, front, rest, key);
        let c = targets_of(entries, x, key);
        let tl = targets_in_order(entries, left, key);
        let tr = targets_in_order(entries, right, key);
        assert(targets_in_order(entries, seq![x], key) == c) by {
            reveal_with_fuel(targets_in_order, 2);
            assert(seq![x].drop_last() == Seq::<u32>::empty());
            assert(seq![x].last() == x);
            assert(Seq::<Seq<u8>>::empty() + c == c);
        }
        lemma_targets_concat(entries, left, seq![x], key);
        lemma_targets_concat(entries, left + seq![x], right, key);
        lemma_targets_concat(entries, left, right, key);
        lemma_multiset_commutative(tl, c);
        lemma_multiset_commutative(tl + c, tr);
        lemma_multiset_commutative(tl, tr);
        lemma_multiset_commutative(targets_in_order(entries, front, key), c);
        assert(targets_in_order(entries, first, key) == targets_in_order(entries, front, key)
            + c);
        assert(tl.to_multiset().add(c.to_multiset()).add(tr.to_multiset())
            =~= tl.to_multiset().add(tr.to_multiset()).add(c.to_multiset()));
    }
}

/// The routers that an uplink reaches, and how often each, do not depend on
/// the order in which the table is walked.
pub proof fn lemma_targets_do_not_depend_on_walk(
    entries: Map<u32, RoutingView>,
    first: Seq<u32>,
    second: Seq<u32>,
    key: RoutingKey,
)
    requires
        is_walk(entries, first),
        is_walk(entries, second),
    ensures
        targets_in_order(entries, first, key).to_multiset() == targets_in_order(
            entries,
            second,
            key,
        ).to_multiset(),
        targets_in_order(entries, first, key).len() == targets_in_order(
            entries,
            second,
            key,
        ).len(),
{
    lemma_targets_of_permutation(entries, first, second, key);
    vstd::seq_lib::to_multiset_len(targets_in_order(entries, first, key));
    vstd::seq_lib::to_multiset_len(targets_in_order(entries, second, key));
}

/// The table after `responses`, taken first to last.
pub open spec fn apply_all(table: TableView, responses: Seq<ResponseView>) -> TableView
    decreases responses.len(),
{
    if responses.len() == 0 {
        table
    } else {
        apply_response(apply_all(table, responses.drop_last()), responses.last())
    }
}

/// The rows of `responses`, first message first.
pub open spec fn all_rows(responses: Seq<ResponseView>) -> Seq<RowView>
    decreases responses.len(),
{
    if responses.len() == 0 {
        Seq::empty()
    } else {
        all_rows(responses.drop_last()) + responses.last().routings
    }
}

/// Each message is higher than the one before.
pub open spec fn strictly_increasing(responses: Seq<ResponseView>) -> bool {
    forall|i: int, j: int|
        0 <= i < j < responses.len() ==> (#[trigger] responses[i]).height < (
        #[trigger] responses[j]).height
}

/// Whether `row` builds an entry for `oui`.
pub open spec fn writes(row: RowView, oui: u32) -> bool {
    row.oui == oui && row_error(row) is None
}

/// The last of `rows` that builds an entry for `oui`, if any does.
pub open spec fn last_writer(rows: Seq<RowView>, oui: u32) -> Option<RowView>
    decreases rows.len(),
{
    if rows.len() == 0 {
        None
    } else if writes(rows.last(), oui) {
        Some(rows.last())
    } else {
        last_writer(rows.drop_last(), oui)
    }
}

/// `last_writer` is what its name says: the row it gives builds an entry
/// for the OUI and no later row does; it gives none only where no row does.
pub proof fn lemma_last_writer(rows: Seq<RowView>, oui: u32)
    ensures
        match last_writer(rows, oui) {
            Some(row) => exists|i: int|
                {
                    &&& 0 <= i < rows.len()
                    &&& #[trigger] rows[i] == row
                    &&& writes(row, oui)
                    &&& forall|j: int| i < j < rows.len() ==> !writes(#[trigger] rows[j], oui)
                },
            None => forall|i: int| 0 <= i < rows.len() ==> !writes(#[trigger] rows[i], oui),
        },
    decreases rows.len(),
{
    if rows.len() == 0 {
    } else if writes(rows.last(), oui) {
        assert(rows[rows.len() - 1] == rows.last());
    } else {
        let front = rows.drop_last();
        lemma_last_writer(front, oui);
        match last_writer(front, oui) {
            Some(row) => {
                let i = choose|i: int|
                    {
                        &&& 0 <= i < front.len()
                        &&& #[trigger] front[i] == row
                        &&& writes(row, oui)
                        &&& forall|j: int|
                            i < j < front.len() ==> !writes(#[trigger] front[j], oui)
                    };
                assert(rows[i] == row);
                assert forall|j: int| i < j < rows.len() implies !writes(
                    #[trigger] rows[j],
                    oui,
                ) by {
                    if j < front.len() {
                        assert(front[j] == rows[j]);
                    }
                }
            },
            None => {
                assert forall|i: int| 0 <= i < rows.len() implies !writes(
                    #[trigger] rows[i],
                    oui,
                ) by {
                    if i < front.len() {
                        assert(front[i] == rows[i]);
                    }
                }
            },
        }
    }
}

/// Last writer wins: after `rows`, an OUI has the entry of the last row
/// that built one for it, and what it had before where no row did.
pub proof fn lemma_last_writer_wins(entries: Map<u32, RoutingView>, rows: Seq<RowView>, oui: u32)
    ensures
        match last_writer(rows, oui) {
            Some(row) => apply_rows(entries, rows).contains_key(oui) && apply_rows(
                entries,
                rows,
            )[oui] == entry_of(row),
            None => apply_rows(entries, rows).contains_key(oui) == entries.contains_key(oui) && (
            entries.contains_key(oui) ==> apply_rows(entries, rows)[oui] == entries[oui]),
        },
    decreases rows.len(),
{
    if rows.len() > 0 {
        lemma_last_writer_wins(entries, rows.drop_last(), oui);
    }
}

/// Rows may be applied in one go or in two.
pub proof fn lemma_apply_rows_concat(
    entries: Map<u32, RoutingView>,
    first: Seq<RowView>,
    second: Seq<RowView>,
)
    ensures
        apply_rows(entries, first + second) == apply_rows(apply_rows(entries, first), second),
    decreases second.len(),
{
    if second.len() == 0 {
        assert(first + second == first);
    } else {
        lemma_apply_rows_concat(entries, first, second.drop_last());
        assert((first + second).drop_last() == first + second.drop_last());
        assert((first + second).last() == second.last());
    }
}

/// Routing messages whose heights grow, applied in order, leave the table
/// at the height of the last; its entries are those of all their rows, the
/// last writer winning for each OUI.
pub proof fn lemma_updates_in_order(table: TableView, responses: Seq<ResponseView>)
    requires
        responses.len() > 0,
        strictly_increasing(responses),
    ensures
        apply_all(table, responses).height == responses.last().height,
        apply_all(table, responses).entries == apply_rows(table.entries, all_rows(responses)),
        forall|oui: u32|
            match #[trigger] last_writer(all_rows(responses), oui) {
                Some(row) => apply_all(table, responses).entries.contains_key(oui) && apply_all(
                    table,
                    responses,
                ).entries[oui] == entry_of(row),
                None => apply_all(table, responses).entries.contains_key(oui)
                    == table.entries.contains_key(oui) && (table.entries.contains_key(oui)
                    ==> apply_all(table, responses).entries[oui] == table.entries[oui]),
            },
{
    lemma_apply_all_rows(table, responses);
    assert forall|oui: u32|
        match #[trigger] last_writer(all_rows(responses), oui) {
            Some(row) => apply_all(table, responses).entries.contains_key(oui) && apply_all(
                table,
                responses,
            ).entries[oui] == entry_of(row),
            None => apply_all(table, responses).entries.contains_key(oui)
                == table.entries.contains_key(oui) && (table.entries.contains_key(oui)
                ==> apply_all(table, responses).entries[oui] == table.entries[oui]),
        } by {
        lemma_last_writer_wins(table.entries, all_rows(responses), oui);
    }
}

/// The entries after a run of messages are those after all their rows.
pub proof fn lemma_apply_all_rows(table: TableView, responses: Seq<ResponseView>)
    ensures
        apply_all(table, responses).entries == apply_rows(table.entries, all_rows(responses)),
    decreases responses.len(),
{
    if responses.len() > 0 {
        lemma_apply_all_rows(table, responses.drop_last());
        lemma_apply_rows_concat(
            table.entries,
            all_rows(responses.drop_last()),
            responses.last().routings,
        );
    }
}

/// Where every message is higher than the table and than the one before,
/// none of them is stale.
pub proof fn lemma_growing_heights_never_stale(
    table: TableView,
    responses: Seq<ResponseView>,
    i: int,
)
    requires
        strictly_increasing(responses),
        0 <= i < responses.len(),
        table.height < responses[0].height,
    ensures
        apply_all(table, responses.take(i)).height < responses[i].height,
{
    if i > 0 {
        let before = responses.take(i);
        assert(before.last() == responses[i - 1]);
    }
}

} // verus!
