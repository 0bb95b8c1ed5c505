use subs::tools::adopt_subspacer::{
    batch_entry, build_zk_batch, check_committed, check_copied_root, check_destination,
    check_distinct, check_handles, check_local_root, is_request_file, load_committed_handles,
    read_chain, read_chain_as, staged_entry, staged_handle, summary_lines, verify_on_chain,
    ChainFile, HandleReq, OnChain,
};
use subs::tools::sdb_root::root_text;
use subs::tools::wif_to_hex::{show_secret, wif_to_hex};

fn req(handle: &str, script: &str) -> HandleReq {
    HandleReq { handle: handle.to_string(), script_pubkey: script.to_string() }
}

fn handles(list: &[HandleReq]) -> Vec<&str> {
    list.iter().map(|r| r.handle.as_str()).collect()
}

#[test]
fn keys_become_hexadecimal() {
    let wif = " 5HueCGU8rMjxEXxiPuD5BDku4MkFqeZyd4dZ1jvhTVqvbTLvyTJ\n";
    let hex = "0c28fca386c7a227600b2fe50b7cae11ec86d3bf1fbe471be89827e19d72aa1d";
    assert_eq!(wif_to_hex(wif, false), Ok(hex.to_string()));
    assert_eq!(wif_to_hex(wif, true), Ok(format!("0x{hex}")));
    assert_eq!(
        wif_to_hex("5HueCGU8rMjxEXxiPuD5BDku4MkFqeZyd4dZ1jvhTVqvbTLvyTK", false),
        Err("invalid WIF (bad Base58Check encoding or checksum)".to_string())
    );
    assert_eq!(show_secret(Some(vec![0, 255]), true), Ok("0x00ff".to_string()));
    assert!(show_secret(None, true).is_err());
    assert_eq!(root_text(&[0xab, 0x01]), "ab01");
}

#[test]
fn chain_files() {
    let file = ChainFile {
        space: "@example".to_string(),
        roots: vec!["aa".to_string(), "bb".to_string()],
    };
    let chain = read_chain(&file).unwrap_or_else(|e| panic!("{e}"));
    assert_eq!((chain.space.as_str(), chain.tip_root.as_str()), ("@example", "bb"));
    assert_eq!(chain.sdb_name, "@example.sdb");
    let empty = ChainFile { space: "@example".to_string(), roots: vec![] };
    assert_eq!(read_chain(&empty).err().as_deref(), Some("chain.json has no entries"));
    let bad = ChainFile { space: "x y".to_string(), roots: vec![] };
    assert_eq!(
        read_chain(&bad).err().as_deref(),
        Some("invalid space label 'x y': Name Error: Malformed name")
    );
    assert_eq!(
        read_chain_as(&file, Err("no".to_string())).err().as_deref(),
        Some("invalid space label '@example': no")
    );
}

#[test]
fn roots_must_agree() {
    assert!(check_local_root("aa", "aa").is_ok());
    assert_eq!(
        check_local_root("aa", "bb"),
        Err("local .sdb root does not match chain.json tip: sdb=aa, chain=bb".to_string())
    );
    assert!(check_copied_root("aa", "aa").is_ok());
    assert_eq!(
        check_copied_root("cc", "aa"),
        Err("destination .sdb root mismatch after copy: cc".to_string())
    );
    let on_chain = |root: u8, prev: Option<u8>| {
        Some(OnChain { state_root: vec![root], prev_root: prev.map(|p| vec![p]) })
    };
    assert_eq!(verify_on_chain("@e", on_chain(0xaa, None), "aa"), Ok(None));
    assert_eq!(
        verify_on_chain("@e", on_chain(0xaa, Some(1)), "aa"),
        Ok(Some(
            "note: on-chain tip has prev_root=01; adopting as a single genesis row in subs.db".to_string()
        ))
    );
    assert_eq!(
        verify_on_chain("@e", on_chain(0xbb, None), "aa"),
        Err("on-chain root mismatch for @e: chain=bb, expected=aa".to_string())
    );
    assert_eq!(
        verify_on_chain("@e", None, "aa"),
        Err("no on-chain commitment found for @e".to_string())
    );
}

#[test]
fn committed_handles_are_sorted_and_uncommitted_left_out() {
    let reqs = vec![req("c@e", "1"), req("a@e", "2"), req("b@e", "3"), req("a@e", "4"), req("x@e", "5")];
    let kept = load_committed_handles(reqs, &vec!["x".to_string(), "b@e".to_string()]);
    assert_eq!(handles(&kept), ["a@e", "a@e", "b@e", "c@e"]);
    assert_eq!(
        kept.iter().map(|r| r.script_pubkey.as_str()).collect::<Vec<_>>(),
        ["2", "4", "3", "1"]
    );
    assert!(is_request_file("alice.req.json"));
    assert!(!is_request_file("chain.json"));
}

#[test]
fn batches_of_handles() {
    let entries = build_zk_batch(&vec![req("alice@example", "51ff")]).unwrap_or_else(|e| panic!("{e}"));
    assert_eq!(entries.len(), 1);
    assert_eq!(entries[0].sub_label, "alice");
    assert_eq!(entries[0].script_pubkey, vec![0x51, 0xff]);
    assert_eq!(
        build_zk_batch(&vec![req("@example", "51")]).err().as_deref(),
        Some("handle '@example' has no subspace")
    );
    assert_eq!(
        build_zk_batch(&vec![req("alice@example", "5")]).err().as_deref(),
        Some("invalid script_pubkey hex for alice@example")
    );
    assert!(build_zk_batch(&vec![req("x y", "")]).err().unwrap().starts_with("invalid handle 'x y': "));
    assert_eq!(
        batch_entry(&req("h", "00"), Err("bad".to_string())).err().as_deref(),
        Some("invalid handle 'h': bad")
    );
}

#[test]
fn handles_to_stage() {
    let entry = staged_handle(&req("alice@example", "AB")).unwrap_or_else(|e| panic!("{e}"));
    assert_eq!((entry.sub_label.as_str(), entry.script_pubkey), ("alice", vec![0xab]));
    assert_eq!(
        staged_handle(&req("Al ice@example", "ab")).err().as_deref(),
        Some("invalid subname in Al ice@example: invalid subspace label")
    );
    assert_eq!(
        staged_handle(&req("alice@example", "zz")).err().as_deref(),
        Some("invalid script_pubkey for alice@example")
    );
    assert!(staged_entry(&req("h", ""), Ok("h".to_string())).ok().unwrap().script_pubkey.is_empty());
}

#[test]
fn checks_on_the_way() {
    assert!(check_handles(&vec![req("a", "")], "/src").is_ok());
    assert_eq!(check_handles(&vec![], "/src"), Err("no committed handles found in /src".to_string()));
    assert!(check_destination(false, false, "/d").is_ok());
    assert!(check_destination(true, true, "/d").is_ok());
    assert_eq!(
        check_destination(true, false, "/d"),
        Err("destination already exists: /d (pass --force to overwrite)".to_string())
    );
    assert!(check_committed(2, 2).is_ok());
    assert_eq!(check_committed(2, 1), Err("expected to commit 2 handles, committed 1".to_string()));
    assert!(check_distinct(&vec![req("a", ""), req("b", "")]).is_ok());
    assert_eq!(
        check_distinct(&vec![req("a", ""), req("b", ""), req("a", "x")]),
        Err("duplicate handle names in adoption set".to_string())
    );
    assert_eq!(
        summary_lines("@e", "/s", "/d", &vec![req("a@e", "")]),
        ["space:      @e", "source:     /s", "dest:       /d", "handles:    1", "  - a@e"]
    );
}
