use edge_workers::certs::{
    ca_store_of, keep_nonempty, parse_ca_store_list, split_commas, plan_root_cert_store, resolve_ca_stores,
    resolve_cert_store, select_ca_data, CaData, CaStore, CertError,
};

fn strings(v: &[&str]) -> Vec<String> {
    v.iter().map(|s| s.to_string()).collect()
}

#[test]
fn store_list_is_split_trimmed_and_filtered() {
    assert_eq!(
        parse_ca_store_list(" system , mozilla ,,"),
        strings(&["system", "mozilla"])
    );
    assert_eq!(parse_ca_store_list("mozilla"), strings(&["mozilla"]));
    assert!(parse_ca_store_list("").is_empty());
    assert!(parse_ca_store_list(" , ").is_empty());
}

#[test]
fn store_names_map_to_stores() {
    assert_eq!(ca_store_of(&"mozilla".to_string()), Some(CaStore::Mozilla));
    assert_eq!(ca_store_of(&"system".to_string()), Some(CaStore::System));
    assert_eq!(ca_store_of(&"Mozilla".to_string()), None);
}

#[test]
fn first_unknown_store_is_reported() {
    let r = resolve_ca_stores(&strings(&["system", "bogus", "other"]));
    assert_eq!(r, Err(CertError::UnknownStore("bogus".to_string())));
}

#[test]
fn default_store_is_mozilla() {
    let plan = plan_root_cert_store(None, None, None, None).unwrap();
    assert_eq!(plan.stores, vec![CaStore::Mozilla]);
    assert_eq!(plan.ca_data, None);
}

#[test]
fn given_stores_win_over_environment() {
    let plan = plan_root_cert_store(
        Some(strings(&["system"])),
        Some("mozilla".to_string()),
        None,
        None,
    )
    .unwrap();
    assert_eq!(plan.stores, vec![CaStore::System]);
}

#[test]
fn environment_stores_are_parsed() {
    let plan =
        plan_root_cert_store(None, Some("system, mozilla".to_string()), None, None).unwrap();
    assert_eq!(plan.stores, vec![CaStore::System, CaStore::Mozilla]);
    let empty = plan_root_cert_store(None, Some(" ".to_string()), None, None).unwrap();
    assert!(empty.stores.is_empty());
}

#[test]
fn unknown_environment_store_is_an_error() {
    let r = plan_root_cert_store(None, Some("mozilla,windows".to_string()), None, None);
    assert_eq!(r.unwrap_err(), CertError::UnknownStore("windows".to_string()));
}

#[test]
fn ca_data_given_wins_over_environment() {
    assert_eq!(
        select_ca_data(Some(CaData::Bytes(vec![1, 2])), Some("x.pem".to_string())),
        Some(CaData::Bytes(vec![1, 2]))
    );
    assert_eq!(
        select_ca_data(None, Some("x.pem".to_string())),
        Some(CaData::File("x.pem".to_string()))
    );
    assert_eq!(select_ca_data(None, None), None);
}

#[test]
fn resolved_store_uses_bytes() {
    let plan = resolve_cert_store(Some(vec![7, 8]), None, Some("y.pem".to_string())).unwrap();
    assert_eq!(plan.stores, vec![CaStore::Mozilla]);
    assert_eq!(plan.ca_data, Some(CaData::Bytes(vec![7, 8])));
}

#[test]
fn commas_split_into_pieces() {
    assert_eq!(split_commas("a,,b"), strings(&["a", "", "b"]));
    assert_eq!(split_commas(""), strings(&[""]));
    assert_eq!(split_commas(" x ,"), strings(&[" x ", ""]));
}

#[test]
fn empty_pieces_are_dropped() {
    assert_eq!(
        keep_nonempty(strings(&["", "system", "", " "])),
        strings(&["system", " "])
    );
    assert!(keep_nonempty(Vec::new()).is_empty());
}
