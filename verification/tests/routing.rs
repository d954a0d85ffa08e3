use lora_bridge::error::{Error, FilterKind};
use lora_bridge::router::filter::Eui;
use lora_bridge::router::routing::{
    Routing, RoutingAddress, RoutingKey, RoutingResponse, RoutingRow, RoutingTable,
};
use lora_bridge::router::RouterClient;

fn address(uri: &str) -> RoutingAddress {
    RoutingAddress { uri: uri.as_bytes().to_vec() }
}

fn uris_of(clients: &[RouterClient]) -> Vec<String> {
    clients.iter().map(|c| String::from_utf8(c.uri().clone()).unwrap()).collect()
}

fn sorted(mut names: Vec<String>) -> Vec<String> {
    names.sort();
    names
}

fn eui(app_eui: u64, dev_eui: u64) -> RoutingKey {
    RoutingKey::Eui(Eui { app_eui, dev_eui })
}

// Bits 1 and 2 of eight.
const LOW: [u8; 1] = [0b0000_0110];

// Addresses 0x4800_0100 to 0x4800_01ff.
const SUBNET: [u8; 8] = [0x48, 0x00, 0x01, 0x00, 0xff, 0xff, 0xff, 0x00];

fn row(oui: u32, uri: &str) -> RoutingRow {
    RoutingRow {
        oui,
        filters: vec![LOW.to_vec()],
        subnets: vec![SUBNET.to_vec()],
        addresses: vec![address(uri)],
    }
}

#[test]
fn entry_is_built_from_a_sound_row() {
    let entry = Routing::from_proto(&row(1, "http://r1:8080")).unwrap();
    assert_eq!(uris_of(entry.clients()), vec!["http://r1:8080"]);
    assert!(entry.matches_routing_data(&eui(1, 2)));
    assert!(!entry.matches_routing_data(&eui(1, 3)));
    assert!(entry.matches_routing_data(&RoutingKey::DevAddr(0x4800_0142)));
    assert!(!entry.matches_routing_data(&RoutingKey::DevAddr(0x4800_0242)));
}

#[test]
fn entry_of_an_empty_row_matches_nothing() {
    let empty = RoutingRow { oui: 1, filters: vec![], subnets: vec![], addresses: vec![] };
    let entry = Routing::from_proto(&empty).unwrap();
    assert!(entry.clients().is_empty());
    assert!(!entry.matches_routing_data(&eui(1, 2)));
    assert!(!entry.matches_routing_data(&RoutingKey::DevAddr(0)));
}

#[test]
fn any_filter_of_an_entry_may_match() {
    let many = RoutingRow {
        oui: 1,
        filters: vec![vec![0x00], vec![0b0001_0000], LOW.to_vec()],
        subnets: vec![vec![0, 0, 0, 1, 0xff, 0xff, 0xff, 0xff], SUBNET.to_vec()],
        addresses: vec![],
    };
    let entry = Routing::from_proto(&many).unwrap();
    assert!(entry.matches_routing_data(&eui(4, 4)));
    assert!(entry.matches_routing_data(&eui(2, 2)));
    assert!(!entry.matches_routing_data(&eui(4, 2)));
    assert!(entry.matches_routing_data(&RoutingKey::DevAddr(1)));
    assert!(entry.matches_routing_data(&RoutingKey::DevAddr(0x4800_0100)));
    assert!(!entry.matches_routing_data(&RoutingKey::DevAddr(2)));
}

#[test]
fn row_with_a_bad_filter_builds_nothing() {
    let mut bad = row(1, "http://r1");
    bad.filters.push(vec![]);
    assert_eq!(Routing::from_proto(&bad), Err(Error::FilterError(FilterKind::Eui)));
}

#[test]
fn row_with_a_bad_subnet_builds_nothing() {
    let mut bad = row(1, "http://r1");
    bad.subnets.push(vec![1, 2, 3, 4, 5, 6]);
    assert_eq!(Routing::from_proto(&bad), Err(Error::FilterError(FilterKind::DevAddr)));
}

#[test]
fn row_with_a_bad_address_builds_nothing() {
    let mut bad = row(1, "http://r1");
    bad.addresses.push(address("http://r 2"));
    assert_eq!(Routing::from_proto(&bad), Err(Error::UriError));
    let mut empty = row(1, "http://r1");
    empty.addresses.push(address(""));
    assert_eq!(Routing::from_proto(&empty), Err(Error::UriError));
}

#[test]
fn filters_are_looked_at_before_subnets_and_addresses() {
    let bad = RoutingRow {
        oui: 1,
        filters: vec![vec![]],
        subnets: vec![vec![1]],
        addresses: vec![address("")],
    };
    assert_eq!(Routing::from_proto(&bad), Err(Error::FilterError(FilterKind::Eui)));
    let worse = RoutingRow {
        oui: 1,
        filters: vec![],
        subnets: vec![vec![1]],
        addresses: vec![address("")],
    };
    assert_eq!(Routing::from_proto(&worse), Err(Error::FilterError(FilterKind::DevAddr)));
}

#[test]
fn new_table_is_empty_at_height_zero() {
    let table = RoutingTable::new();
    assert_eq!(table.height(), 0);
    assert_eq!(table.len(), 0);
    assert!(table.ouis().is_empty());
    assert!(table.clients_for(&eui(1, 2)).is_empty());
}

#[test]
fn update_takes_height_and_rows() {
    let mut table = RoutingTable::new();
    let report = table.update(&RoutingResponse {
        height: 10,
        routings: vec![row(1, "http://r1"), row(2, "http://r2")],
    });
    assert_eq!(report.height, 10);
    assert!(!report.stale);
    assert!(report.skipped.is_empty());
    assert_eq!(table.height(), 10);
    assert_eq!(table.len(), 2);
    let mut ouis = table.ouis();
    ouis.sort();
    assert_eq!(ouis, vec![1, 2]);
}

#[test]
fn growing_heights_end_at_the_last_with_last_writer_winning() {
    let mut table = RoutingTable::new();
    let responses = vec![
        RoutingResponse { height: 3, routings: vec![row(1, "http://a"), row(2, "http://b")] },
        RoutingResponse { height: 5, routings: vec![row(1, "http://c")] },
        RoutingResponse {
            height: 8,
            routings: vec![row(3, "http://d"), row(2, "http://e"), row(2, "http://f")],
        },
    ];
    for response in &responses {
        let report = table.update(response);
        assert!(!report.stale);
        assert_eq!(report.height, response.height);
    }
    assert_eq!(table.height(), 8);
    assert_eq!(table.len(), 3);
    assert_eq!(
        sorted(uris_of(&table.clients_for(&eui(1, 2)))),
        vec!["http://c", "http://d", "http://f"]
    );
}

#[test]
fn skipped_row_leaves_the_entry_as_it_was() {
    let mut table = RoutingTable::new();
    table.update(&RoutingResponse { height: 1, routings: vec![row(1, "http://old")] });
    let mut bad = row(1, "http://new");
    bad.subnets = vec![vec![0u8; 7]];
    let report = table.update(&RoutingResponse {
        height: 2,
        routings: vec![bad, row(2, "http://other"), row(7, "not a uri")],
    });
    assert_eq!(
        report.skipped,
        vec![(1, Error::FilterError(FilterKind::DevAddr)), (7, Error::UriError)]
    );
    assert_eq!(table.height(), 2);
    assert_eq!(table.len(), 2);
    assert_eq!(
        sorted(uris_of(&table.clients_for(&eui(1, 2)))),
        vec!["http://old", "http://other"]
    );
}

#[test]
fn stale_update_is_flagged_and_still_applied() {
    let mut table = RoutingTable::new();
    table.update(&RoutingResponse { height: 10, routings: vec![row(1, "http://r1")] });
    let report = table.update(&RoutingResponse { height: 7, routings: vec![row(2, "http://r2")] });
    assert!(report.stale);
    assert_eq!(report.height, 7);
    assert_eq!(table.height(), 7);
    assert_eq!(table.len(), 2);
    let same = table.update(&RoutingResponse { height: 7, routings: vec![] });
    assert!(same.stale);
    assert_eq!(table.height(), 7);
}

#[test]
fn matching_entries_are_all_named_with_their_duplicates() {
    let mut table = RoutingTable::new();
    let both = RoutingRow {
        oui: 1,
        filters: vec![LOW.to_vec()],
        subnets: vec![],
        addresses: vec![address("http://shared"), address("http://one")],
    };
    let other = RoutingRow {
        oui: 2,
        filters: vec![vec![0xff]],
        subnets: vec![SUBNET.to_vec()],
        addresses: vec![address("http://shared")],
    };
    let none = RoutingRow {
        oui: 3,
        filters: vec![vec![0x00]],
        subnets: vec![],
        addresses: vec![address("http://never")],
    };
    table.update(&RoutingResponse { height: 1, routings: vec![both, other, none] });
    assert_eq!(
        sorted(uris_of(&table.clients_for(&eui(1, 2)))),
        vec!["http://one", "http://shared", "http://shared"]
    );
    assert_eq!(uris_of(&table.clients_for(&eui(7, 7))), vec!["http://shared"]);
    assert_eq!(uris_of(&table.clients_for(&RoutingKey::DevAddr(0x4800_0101))), vec!["http://shared"]);
    assert!(table.clients_for(&RoutingKey::DevAddr(5)).is_empty());
}
