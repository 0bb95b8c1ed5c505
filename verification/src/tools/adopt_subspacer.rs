//! Adopting the directory of a space from an older service.
//!
//! The tree is copied, its root is held against what the chain says, and the handles
//! that were committed become one first commitment.
use vstd::prelude::*;

use crate::adapters::{
    handle_name, hex_decode, hex_encode, hex_text, is_subname, label_error, parse_handle,
    parse_label, parse_subname, space_label, unhex, HandleName, HandleNameView,
};
use crate::text::{
    before_first, decimal, ends_with, first_piece, group_list_view, has_suffix,
    lemma_precedes_strict, lemma_precedes_transitive, list_contains, list_view, precedes,
    result_view, text_eq, text_precedes, usize_text,
};

verus! {

broadcast use group_list_view;

// ---------------------------------------------------------------------------
// The chain file
// ---------------------------------------------------------------------------

/// What a chain file says: the label of the space, and the root after each entry.
pub struct ChainFile {
    pub space: String,
    pub roots: Vec<String>,
}

/// What is to be adopted.
pub struct Chain {
    /// The canonical label of the space.
    pub space: String,
    /// The root after the last entry.
    pub tip_root: String,
    /// The name of the database.
    pub sdb_name: String,
}

pub ghost struct ChainView {
    pub space: Seq<char>,
    pub tip_root: Seq<char>,
    pub sdb_name: Seq<char>,
}

impl View for Chain {
    type V = ChainView;

    open spec fn view(&self) -> ChainView {
        ChainView { space: self.space@, tip_root: self.tip_root@, sdb_name: self.sdb_name@ }
    }
}

/// What a chain file says, given what its label was parsed to.
pub open spec fn chain_of(
    label: Seq<char>,
    parsed: Result<Seq<char>, Seq<char>>,
    roots: Seq<Seq<char>>,
) -> Result<ChainView, Seq<char>> {
    match parsed {
        Err(e) => Err("invalid space label '"@ + label + "': "@ + e),
        Ok(space) => if roots.len() == 0 {
            Err("chain.json has no entries"@)
        } else {
            Ok(ChainView { space, tip_root: roots.last(), sdb_name: space + ".sdb"@ })
        },
    }
}

/// What a chain file says, given what its label was parsed to.
pub fn read_chain_as(file: &ChainFile, parsed: Result<String, String>) -> (chain: Result<Chain, String>)
    ensures
        result_view(chain) == chain_of(file.space@, result_view(parsed), list_view(file.roots@)),
{
    let space = match parsed {
        Ok(space) => space,
        Err(e) => {
            return Err(
                "invalid space label '".to_owned().concat(file.space.as_str()).concat("': ").concat(
                    e.as_str(),
                ),
            );
        },
    };
    let n: usize = file.roots.len();
    if n == 0 {
        return Err("chain.json has no entries".to_owned());
    }
    let tip_root = file.roots[n - 1].clone();
    let sdb_name = space.clone().concat(".sdb");
    Ok(Chain { space, tip_root, sdb_name })
}

/// What parsing a label comes to.
pub open spec fn parsed_label(label: Seq<char>) -> Result<Seq<char>, Seq<char>> {
    match space_label(label) {
        Some(space) => Ok(space),
        None => Err(label_error()),
    }
}

/// What a chain file says.
pub fn read_chain(file: &ChainFile) -> (chain: Result<Chain, String>)
    ensures
        result_view(chain) == chain_of(
            file.space@,
            parsed_label(file.space@),
            list_view(file.roots@),
        ),
{
    read_chain_as(file, parse_label(file.space.as_str()))
}

/// Holds the root of the database against the one of the chain file.
pub fn check_local_root(local_root: &str, tip_root: &str) -> (outcome: Result<(), String>)
    ensures
        outcome is Ok <==> local_root@ == tip_root@,
        outcome matches Err(e) ==> e@ == "local .sdb root does not match chain.json tip: sdb="@
            + local_root@ + ", chain="@ + tip_root@,
{
    if text_eq(local_root, tip_root) {
        Ok(())
    } else {
        Err(
            "local .sdb root does not match chain.json tip: sdb=".to_owned().concat(
                local_root,
            ).concat(", chain=").concat(tip_root),
        )
    }
}

// ---------------------------------------------------------------------------
// The commitment on the chain
// ---------------------------------------------------------------------------

/// A commitment on the chain.
pub struct OnChain {
    pub state_root: Vec<u8>,
    pub prev_root: Option<Vec<u8>>,
}

/// Holds the commitment on the chain against the expected root. A note tells of one
/// that is not the first.
pub fn verify_on_chain(space: &str, on_chain: Option<OnChain>, expected_root: &str) -> (note: Result<
    Option<String>,
    String,
>)
    requires
        on_chain matches Some(c) ==> c.state_root@.len() <= usize::MAX / 4 && (
        c.prev_root matches Some(prev) ==> prev@.len() <= usize::MAX / 4),
    ensures
        match on_chain {
            None => note matches Err(e) && e@ == "no on-chain commitment found for "@ + space@,
            Some(c) => if hex_text(c.state_root@) != expected_root@ {
                note matches Err(e) && e@ == "on-chain root mismatch for "@ + space@ + ": chain="@
                    + hex_text(c.state_root@) + ", expected="@ + expected_root@
            } else {
                match c.prev_root {
                    None => note matches Ok(None),
                    Some(prev) => note matches Ok(Some(text)) && text@
                        == "note: on-chain tip has prev_root="@ + hex_text(prev@)
                        + "; adopting as a single genesis row in subs.db"@,
                }
            },
        },
{
    let c = match on_chain {
        Some(c) => c,
        None => {
            return Err("no on-chain commitment found for ".to_owned().concat(space));
        },
    };
    let chain_root = hex_encode(c.state_root.as_slice());
    if !text_eq(chain_root.as_str(), expected_root) {
        return Err(
            "on-chain root mismatch for ".to_owned().concat(space).concat(": chain=").concat(
                chain_root.as_str(),
            ).concat(", expected=").concat(expected_root),
        );
    }
    match c.prev_root {
        None => Ok(None),
        Some(prev) => Ok(
            Some(
                "note: on-chain tip has prev_root=".to_owned().concat(
                    hex_encode(prev.as_slice()).as_str(),
                ).concat("; adopting as a single genesis row in subs.db"),
            ),
        ),
    }
}

// ---------------------------------------------------------------------------
// The committed handles
// ---------------------------------------------------------------------------

/// A handle and the script that owns it, in hexadecimal.
pub struct HandleReq {
    pub handle: String,
    pub script_pubkey: String,
}

pub ghost struct HandleReqView {
    pub handle: Seq<char>,
    pub script_pubkey: Seq<char>,
}

impl View for HandleReq {
    type V = HandleReqView;

    open spec fn view(&self) -> HandleReqView {
        HandleReqView { handle: self.handle@, script_pubkey: self.script_pubkey@ }
    }
}

/// Whether a file holds a handle, going by its name.
pub fn is_request_file(file_name: &str) -> (yes: bool)
    ensures
        yes == has_suffix(file_name@, ".req.json"@),
{
    ends_with(file_name, ".req.json")
}

/// How many handles at the front of a list do not stand behind one with a given name.
pub open spec fn not_behind(list: Seq<HandleReqView>, handle: Seq<char>) -> int
    decreases list.len(),
{
    if list.len() == 0 || precedes(handle, list[0].handle) {
        0
    } else {
        1 + not_behind(list.skip(1), handle)
    }
}

proof fn lemma_not_behind(list: Seq<HandleReqView>, handle: Seq<char>, n: int)
    requires
        0 <= n <= list.len(),
        forall|j: int| 0 <= j < n ==> !precedes(handle, (#[trigger] list[j]).handle),
        n == list.len() || precedes(handle, list[n].handle),
    ensures
        not_behind(list, handle) == n,
    decreases n,
{
    if n > 0 {
        assert(!precedes(handle, list[0].handle));
        assert forall|j: int| 0 <= j < n - 1 implies !precedes(
            handle,
            (#[trigger] list.skip(1)[j]).handle,
        ) by {
            assert(list.skip(1)[j] == list[j + 1]);
        }
        lemma_not_behind(list.skip(1), handle, n - 1);
    }
}

proof fn lemma_not_behind_bounds(list: Seq<HandleReqView>, handle: Seq<char>)
    ensures
        0 <= not_behind(list, handle) <= list.len(),
        forall|j: int|
            0 <= j < not_behind(list, handle) ==> !precedes(handle, (#[trigger] list[j]).handle),
        not_behind(list, handle) < list.len() ==> precedes(
            handle,
            list[not_behind(list, handle)].handle,
        ),
    decreases list.len(),
{
    if list.len() > 0 && !precedes(handle, list[0].handle) {
        lemma_not_behind_bounds(list.skip(1), handle);
        assert forall|j: int| 0 <= j < not_behind(list, handle) implies !precedes(
            handle,
            (#[trigger] list[j]).handle,
        ) by {
            if j > 0 {
                assert(list[j] == list.skip(1)[j - 1]);
            }
        }
    }
}

/// The handles that were committed: those whose label is not excluded, in the order
/// of their names. Handles with the same name keep their order.
pub open spec fn committed(reqs: Seq<HandleReqView>, excluded: Seq<Seq<char>>) -> Seq<HandleReqView>
    decreases reqs.len(),
{
    if reqs.len() == 0 {
        Seq::empty()
    } else {
        let before = committed(reqs.drop_last(), excluded);
        let req = reqs.last();
        if excluded.contains(before_first(req.handle, '@')) {
            before
        } else {
            before.insert(not_behind(before, req.handle), req)
        }
    }
}

fn insert_req(list: &mut Vec<HandleReq>, req: HandleReq)
    ensures
        list_view(final(list)@) == list_view(old(list)@).insert(
            not_behind(list_view(old(list)@), req@.handle),
            req@,
        ),
{
    let mut i: usize = 0;
    while i < list.len() && !text_precedes(req.handle.as_str(), list[i].handle.as_str())
        invariant
            i <= list.len(),
            *list == *old(list),
            forall|j: int|
                0 <= j < i ==> !precedes(req@.handle, (#[trigger] list_view(list@)[j]).handle),
        decreases list.len() - i,
    {
        assert(list_view(list@)[i as int] == list@[i as int]@);
        i = i + 1;
    }
    proof {
        if i < list.len() {
            assert(list_view(list@)[i as int] == list@[i as int]@);
        }
        lemma_not_behind(list_view(list@), req@.handle, i as int);
        assert(list_view(list@.insert(i as int, req)) =~= list_view(list@).insert(i as int, req@));
    }
    list.insert(i, req);
}

/// The handles that were committed, of those that files hold, given the labels of
/// those that were not.
pub fn load_committed_handles(reqs: Vec<HandleReq>, excluded: &Vec<String>) -> (handles: Vec<
    HandleReq,
>)
    ensures
        list_view(handles@) == committed(list_view(reqs@), list_view(excluded@)),
{
    let ghost all = list_view(reqs@);
    let n: usize = reqs.len();
    let mut rest = reqs;
    let mut handles: Vec<HandleReq> = Vec::new();
    let mut i: usize = 0;
    assert(all.take(0) =~= Seq::empty());
    assert(all.skip(0) =~= all);
    while i < n
        invariant
            n == all.len(),
            i <= n,
            list_view(rest@) == all.skip(i as int),
            list_view(handles@) == committed(all.take(i as int), list_view(excluded@)),
        decreases n - i,
    {
        assert(rest@.len() == list_view(rest@).len());
        let req = rest.remove(0);
        i = i + 1;
        proof {
            assert(all.skip(i - 1)[0] == all[i - 1]);
            assert(all.skip(i - 1).skip(1) =~= all.skip(i as int));
            assert(all.take(i as int).drop_last() =~= all.take(i - 1));
            assert(all.take(i as int).last() == req@);
        }
        if !list_contains(excluded, first_piece(req.handle.as_str(), '@')) {
            insert_req(&mut handles, req);
        }
    }
    assert(all.take(i as int) =~= all);
    handles
}

/// No handle of a list stands before an earlier one.
pub open spec fn ordered(list: Seq<HandleReqView>) -> bool {
    forall|i: int, j: int|
        0 <= i < j < list.len() ==> !precedes(
            (#[trigger] list[j]).handle,
            (#[trigger] list[i]).handle,
        )
}

proof fn lemma_insert_keeps_order(list: Seq<HandleReqView>, req: HandleReqView)
    requires
        ordered(list),
    ensures
        ordered(list.insert(not_behind(list, req.handle), req)),
{
    let at = not_behind(list, req.handle);
    let grown = list.insert(at, req);
    lemma_not_behind_bounds(list, req.handle);
    assert forall|i: int, j: int| 0 <= i < j < grown.len() implies !precedes(
        (#[trigger] grown[j]).handle,
        (#[trigger] grown[i]).handle,
    ) by {
        if j == at {
            assert(grown[i] == list[i]);
        } else if i == at {
            assert(grown[j] == list[j - 1]);
            assert(precedes(req.handle, list[at].handle));
            lemma_precedes_strict(req.handle, list[at].handle);
            if precedes(list[j - 1].handle, req.handle) {
                lemma_precedes_transitive(list[j - 1].handle, req.handle, list[at].handle);
                lemma_precedes_strict(list[at].handle, list[at].handle);
            }
        } else {
            let a = if i < at {
                i
            } else {
                i - 1
            };
            let b = if j < at {
                j
            } else {
                j - 1
            };
            assert(grown[i] == list[a]);
            assert(grown[j] == list[b]);
        }
    }
}

/// The committed handles are in the order of their names.
pub proof fn lemma_committed_is_ordered(reqs: Seq<HandleReqView>, excluded: Seq<Seq<char>>)
    ensures
        ordered(committed(reqs, excluded)),
    decreases reqs.len(),
{
    if reqs.len() > 0 {
        lemma_committed_is_ordered(reqs.drop_last(), excluded);
        lemma_insert_keeps_order(committed(reqs.drop_last(), excluded), reqs.last());
    }
}

/// How often a handle occurs in a list.
pub open spec fn times(list: Seq<HandleReqView>, req: HandleReqView) -> nat
    decreases list.len(),
{
    if list.len() == 0 {
        0
    } else {
        times(list.drop_last(), req) + if list.last() == req {
            1nat
        } else {
            0
        }
    }
}

proof fn lemma_times_insert(list: Seq<HandleReqView>, at: int, new: HandleReqView, req: HandleReqView)
    requires
        0 <= at <= list.len(),
    ensures
        times(list.insert(at, new), req) == times(list, req) + if new == req {
            1nat
        } else {
            0
        },
    decreases list.len(),
{
    let grown = list.insert(at, new);
    if at == list.len() {
        assert(grown.drop_last() =~= list);
    } else {
        assert(grown.drop_last() =~= list.drop_last().insert(at, new));
        assert(grown.last() == list.last());
        lemma_times_insert(list.drop_last(), at, new, req);
    }
}

/// No handle is lost or made up: each one whose label is not excluded is committed as
/// often as it was found, and none of the others is.
pub proof fn lemma_committed_keeps_the_handles(
    reqs: Seq<HandleReqView>,
    excluded: Seq<Seq<char>>,
    req: HandleReqView,
)
    ensures
        times(committed(reqs, excluded), req) == (if excluded.contains(
            before_first(req.handle, '@'),
        ) {
            0
        } else {
            times(reqs, req)
        }),
    decreases reqs.len(),
{
    if reqs.len() > 0 {
        let before = committed(reqs.drop_last(), excluded);
        lemma_committed_keeps_the_handles(reqs.drop_last(), excluded, req);
        lemma_not_behind_bounds(before, reqs.last().handle);
        lemma_times_insert(before, not_behind(before, reqs.last().handle), reqs.last(), req);
    }
}

/// The handles of a list that have a given name, in order.
pub open spec fn named(list: Seq<HandleReqView>, name: Seq<char>) -> Seq<HandleReqView>
    decreases list.len(),
{
    if list.len() == 0 {
        Seq::empty()
    } else if list.last().handle == name {
        named(list.drop_last(), name).push(list.last())
    } else {
        named(list.drop_last(), name)
    }
}

proof fn lemma_named_insert(list: Seq<HandleReqView>, at: int, req: HandleReqView, name: Seq<char>)
    requires
        0 <= at <= list.len(),
        forall|j: int| at <= j < list.len() ==> (#[trigger] list[j]).handle != req.handle,
    ensures
        named(list.insert(at, req), name) == (if req.handle == name {
            named(list, name).push(req)
        } else {
            named(list, name)
        }),
    decreases list.len(),
{
    let grown = list.insert(at, req);
    if at == list.len() {
        assert(grown.drop_last() =~= list);
        assert(grown.last() == req);
    } else {
        let front = list.drop_last();
        assert(grown.drop_last() =~= front.insert(at, req));
        assert(grown.last() == list.last());
        assert(list[list.len() - 1].handle != req.handle);
        assert forall|j: int| at <= j < front.len() implies (#[trigger] front[j]).handle
            != req.handle by {
            assert(front[j] == list[j]);
        }
        lemma_named_insert(front, at, req, name);
    }
}

/// Handles with the same name keep the order in which they were found.
pub proof fn lemma_committed_is_stable(
    reqs: Seq<HandleReqView>,
    excluded: Seq<Seq<char>>,
    name: Seq<char>,
)
    requires
        !excluded.contains(before_first(name, '@')),
    ensures
        named(committed(reqs, excluded), name) == named(reqs, name),
    decreases reqs.len(),
{
    if reqs.len() > 0 {
        let before = committed(reqs.drop_last(), excluded);
        let req = reqs.last();
        let at = not_behind(before, req.handle);
        lemma_committed_is_stable(reqs.drop_last(), excluded, name);
        lemma_committed_is_ordered(reqs.drop_last(), excluded);
        lemma_not_behind_bounds(before, req.handle);
        assert forall|j: int| at <= j < before.len() implies (#[trigger] before[j]).handle
            != req.handle by {
            assert(precedes(req.handle, before[at].handle));
            if before[j].handle == req.handle {
                if j > at {
                    assert(!precedes(before[j].handle, before[at].handle));
                }
                lemma_precedes_strict(req.handle, before[at].handle);
            }
        }
        lemma_named_insert(before, at, req, name);
    }
}

// ---------------------------------------------------------------------------
// The batch
// ---------------------------------------------------------------------------

/// An entry of a batch.
pub struct BatchEntry {
    pub sub_label: String,
    pub script_pubkey: Vec<u8>,
}

pub ghost struct BatchEntryView {
    pub sub_label: Seq<char>,
    pub script_pubkey: Seq<u8>,
}

impl View for BatchEntry {
    type V = BatchEntryView;

    open spec fn view(&self) -> BatchEntryView {
        BatchEntryView { sub_label: self.sub_label@, script_pubkey: self.script_pubkey@ }
    }
}

/// The entry for a handle, given what it was parsed to.
pub open spec fn entry_of(req: HandleReqView, parsed: Result<HandleNameView, Seq<char>>) -> Result<
    BatchEntryView,
    Seq<char>,
> {
    match parsed {
        Err(e) => Err("invalid handle '"@ + req.handle + "': "@ + e),
        Ok(name) => match (name.subname, unhex(req.script_pubkey)) {
            (None, _) => Err("handle '"@ + req.handle + "' has no subspace"@),
            (Some(_), None) => Err("invalid script_pubkey hex for "@ + req.handle),
            (Some(sub_label), Some(script_pubkey)) => Ok(
                BatchEntryView { sub_label, script_pubkey },
            ),
        },
    }
}

/// The entry for a handle, given what it was parsed to.
pub fn batch_entry(req: &HandleReq, parsed: Result<HandleName, String>) -> (entry: Result<
    BatchEntry,
    String,
>)
    ensures
        result_view(entry) == entry_of(req@, result_view(parsed)),
{
    let name = match parsed {
        Ok(name) => name,
        Err(e) => {
            return Err(
                "invalid handle '".to_owned().concat(req.handle.as_str()).concat("': ").concat(
                    e.as_str(),
                ),
            );
        },
    };
    let sub_label = match name.subname {
        Some(label) => label,
        None => {
            return Err(
                "handle '".to_owned().concat(req.handle.as_str()).concat("' has no subspace"),
            );
        },
    };
    match hex_decode(req.script_pubkey.as_str()) {
        Some(script_pubkey) => Ok(BatchEntry { sub_label, script_pubkey }),
        None => Err("invalid script_pubkey hex for ".to_owned().concat(req.handle.as_str())),
    }
}

/// The entries for some handles, or what is wrong with the first that has none.
pub open spec fn batch_of(reqs: Seq<HandleReqView>) -> Result<Seq<BatchEntryView>, Seq<char>>
    decreases reqs.len(),
{
    if reqs.len() == 0 {
        Ok(Seq::empty())
    } else {
        match batch_of(reqs.drop_last()) {
            Err(e) => Err(e),
            Ok(entries) => match entry_of(reqs.last(), handle_name(reqs.last().handle)) {
                Err(e) => Err(e),
                Ok(entry) => Ok(entries.push(entry)),
            },
        }
    }
}

proof fn lemma_first_fault_stands(reqs: Seq<HandleReqView>, n: int)
    requires
        0 <= n <= reqs.len(),
        batch_of(reqs.take(n)) is Err,
    ensures
        batch_of(reqs) == batch_of(reqs.take(n)),
    decreases reqs.len() - n,
{
    if n < reqs.len() {
        assert(reqs.take(n + 1).drop_last() =~= reqs.take(n));
        lemma_first_fault_stands(reqs, n + 1);
    } else {
        assert(reqs.take(n) =~= reqs);
    }
}

/// The entries for some handles.
pub fn build_zk_batch(reqs: &Vec<HandleReq>) -> (entries: Result<Vec<BatchEntry>, String>)
    ensures
        (match entries {
            Ok(list) => Ok(list_view(list@)),
            Err(e) => Err(e@),
        }) == batch_of(list_view(reqs@)),
{
    let ghost all = list_view(reqs@);
    let mut entries: Vec<BatchEntry> = Vec::new();
    let mut i: usize = 0;
    assert(all.take(0) =~= Seq::empty());
    while i < reqs.len()
        invariant
            i <= reqs.len(),
            all == list_view(reqs@),
            batch_of(all.take(i as int)) == Ok::<Seq<BatchEntryView>, Seq<char>>(
                list_view(entries@),
            ),
        decreases reqs.len() - i,
    {
        let parsed = parse_handle(reqs[i].handle.as_str());
        let made = batch_entry(&reqs[i], parsed);
        i = i + 1;
        proof {
            assert(all.take(i as int).drop_last() =~= all.take(i - 1));
            assert(all.take(i as int).last() == reqs@[i - 1]@);
        }
        match made {
            Ok(entry) => entries.push(entry),
            Err(e) => {
                proof {
                    lemma_first_fault_stands(all, i as int);
                }
                return Err(e);
            },
        }
    }
    assert(all.take(i as int) =~= all);
    Ok(entries)
}

/// A handle to stage in the new database, given what its label was parsed to.
pub open spec fn staged(req: HandleReqView, parsed: Result<Seq<char>, Seq<char>>) -> Result<
    BatchEntryView,
    Seq<char>,
> {
    match (parsed, unhex(req.script_pubkey)) {
        (Err(e), _) => Err("invalid subname in "@ + req.handle + ": "@ + e),
        (Ok(_), None) => Err("invalid script_pubkey for "@ + req.handle),
        (Ok(sub_label), Some(script_pubkey)) => Ok(BatchEntryView { sub_label, script_pubkey }),
    }
}

/// A handle to stage in the new database, given what its label was parsed to.
pub fn staged_entry(req: &HandleReq, parsed: Result<String, String>) -> (entry: Result<
    BatchEntry,
    String,
>)
    ensures
        result_view(entry) == staged(req@, result_view(parsed)),
{
    let sub_label = match parsed {
        Ok(label) => label,
        Err(e) => {
            return Err(
                "invalid subname in ".to_owned().concat(req.handle.as_str()).concat(": ").concat(
                    e.as_str(),
                ),
            );
        },
    };
    match hex_decode(req.script_pubkey.as_str()) {
        Some(script_pubkey) => Ok(BatchEntry { sub_label, script_pubkey }),
        None => Err("invalid script_pubkey for ".to_owned().concat(req.handle.as_str())),
    }
}

/// What parsing the label of a handle comes to.
pub open spec fn parsed_sub_label(handle: Seq<char>) -> Result<Seq<char>, Seq<char>> {
    let label = before_first(handle, '@');
    if is_subname(label) {
        Ok(label)
    } else {
        Err("invalid subspace label"@)
    }
}

/// A handle to stage in the new database: its label and script.
pub fn staged_handle(req: &HandleReq) -> (entry: Result<BatchEntry, String>)
    ensures
        result_view(entry) == staged(req@, parsed_sub_label(req@.handle)),
{
    staged_entry(req, parse_subname(first_piece(req.handle.as_str(), '@')))
}

// ---------------------------------------------------------------------------
// Checks on the way
// ---------------------------------------------------------------------------

/// There must be handles to adopt.
pub fn check_handles(handles: &Vec<HandleReq>, source: &str) -> (outcome: Result<(), String>)
    ensures
        outcome is Ok <==> handles@.len() > 0,
        outcome matches Err(e) ==> e@ == "no committed handles found in "@ + source@,
{
    if handles.len() == 0 {
        Err("no committed handles found in ".to_owned().concat(source))
    } else {
        Ok(())
    }
}

/// A destination that exists is only overwritten where that is asked for.
pub fn check_destination(present: bool, force: bool, dest: &str) -> (outcome: Result<(), String>)
    ensures
        outcome is Ok <==> !present || force,
        outcome matches Err(e) ==> e@ == "destination already exists: "@ + dest@
            + " (pass --force to overwrite)"@,
{
    if present && !force {
        Err(
            "destination already exists: ".to_owned().concat(dest).concat(
                " (pass --force to overwrite)",
            ),
        )
    } else {
        Ok(())
    }
}

/// As many handles must have been committed as were staged.
pub fn check_committed(expected: usize, committed: usize) -> (outcome: Result<(), String>)
    ensures
        outcome is Ok <==> committed == expected,
        outcome matches Err(e) ==> e@ == "expected to commit "@ + decimal(expected as nat)
            + " handles, committed "@ + decimal(committed as nat),
{
    if committed == expected {
        Ok(())
    } else {
        Err(
            "expected to commit ".to_owned().concat(usize_text(expected).as_str()).concat(
                " handles, committed ",
            ).concat(usize_text(committed).as_str()),
        )
    }
}

/// The copy must have the root of what was copied.
pub fn check_copied_root(copied_root: &str, tip_root: &str) -> (outcome: Result<(), String>)
    ensures
        outcome is Ok <==> copied_root@ == tip_root@,
        outcome matches Err(e) ==> e@ == "destination .sdb root mismatch after copy: "@
            + copied_root@,
{
    if text_eq(copied_root, tip_root) {
        Ok(())
    } else {
        Err("destination .sdb root mismatch after copy: ".to_owned().concat(copied_root))
    }
}

/// No two handles of a list have the same name.
pub open spec fn distinct_names(list: Seq<HandleReqView>) -> bool {
    forall|i: int, j: int|
        0 <= i < j < list.len() ==> (#[trigger] list[i]).handle != (#[trigger] list[j]).handle
}

/// No two handles may have the same name.
pub fn check_distinct(handles: &Vec<HandleReq>) -> (outcome: Result<(), String>)
    ensures
        outcome is Ok <==> distinct_names(list_view(handles@)),
        outcome matches Err(e) ==> e@ == "duplicate handle names in adoption set"@,
{
    let ghost all = list_view(handles@);
    let n: usize = handles.len();
    let mut i: usize = 0;
    while i < n
        invariant
            n == handles.len(),
            i <= n,
            all == list_view(handles@),
            forall|a: int, b: int|
                0 <= a < i && a < b < n ==> (#[trigger] all[a]).handle != (
                #[trigger] all[b]).handle,
        decreases n - i,
    {
        let mut j: usize = i + 1;
        while j < n
            invariant
                n == handles.len(),
                i < n,
                i < j <= n,
                all == list_view(handles@),
                forall|b: int| i < b < j ==> all[i as int].handle != (#[trigger] all[b]).handle,
            decreases n - j,
        {
            assert(all[i as int] == handles@[i as int]@);
            assert(all[j as int] == handles@[j as int]@);
            if text_eq(handles[i].handle.as_str(), handles[j].handle.as_str()) {
                assert(all[i as int].handle == all[j as int].handle);
                return Err("duplicate handle names in adoption set".to_owned());
            }
            j = j + 1;
        }
        i = i + 1;
    }
    assert(distinct_names(all));
    Ok(())
}

/// The lines that tell what will be adopted.
pub open spec fn summary(
    space: Seq<char>,
    source: Seq<char>,
    dest: Seq<char>,
    handles: Seq<HandleReqView>,
) -> Seq<Seq<char>> {
    seq![
        "space:      "@ + space,
        "source:     "@ + source,
        "dest:       "@ + dest,
        "handles:    "@ + decimal(handles.len()),
    ] + Seq::new(handles.len(), |i: int| "  - "@ + handles[i].handle)
}

/// The lines that tell what will be adopted.
pub fn summary_lines(space: &str, source: &str, dest: &str, handles: &Vec<HandleReq>) -> (lines: Vec<
    String,
>)
    ensures
        list_view(lines@) == summary(space@, source@, dest@, list_view(handles@)),
{
    let ghost all = summary(space@, source@, dest@, list_view(handles@));
    let mut lines: Vec<String> = Vec::new();
    lines.push("space:      ".to_owned().concat(space));
    lines.push("source:     ".to_owned().concat(source));
    lines.push("dest:       ".to_owned().concat(dest));
    lines.push("handles:    ".to_owned().concat(usize_text(handles.len()).as_str()));
    let mut i: usize = 0;
    assert(list_view(lines@) =~= all.take(4));
    while i < handles.len()
        invariant
            i <= handles.len(),
            all == summary(space@, source@, dest@, list_view(handles@)),
            list_view(lines@) == all.take(4 + i),
        decreases handles.len() - i,
    {
        lines.push("  - ".to_owned().concat(handles[i].handle.as_str()));
        assert(list_view(handles@)[i as int] == handles@[i as int]@);
        assert(all[4 + i] == lines@.last()@);
        i = i + 1;
        assert(all.take(4 + i) =~= all.take(4 + i - 1).push(all[4 + i - 1]));
    }
    assert(all.take(4 + i) =~= all);
    lines
}

} // verus!
