//! The tools for operators.
use vstd::prelude::*;

use crate::adapters::{handle_name, hex_text, unhex, HandleNameView};
use crate::text::decimal;
use crate::tools::adopt_subspacer::{
    batch_of, chain_of, entry_of, staged, summary, BatchEntryView, ChainView, HandleReqView,
};
use crate::tools::wif_to_hex::secret_text;

verus! {

/// A chain file names the space, the root after its last entry and the database of the space; it is
/// refused where its label is none or it has no entries.
pub proof fn lemma_chain_files(
    label: Seq<char>,
    space: Seq<char>,
    roots: Seq<Seq<char>>,
    tip: Seq<char>,
    e: Seq<char>,
)
    ensures
        chain_of(label, Ok(space), roots.push(tip)) == Ok::<ChainView, Seq<char>>(
            ChainView { space, tip_root: tip, sdb_name: space + ".sdb"@ },
        ),
        chain_of(label, Ok(space), Seq::empty()) == Err::<ChainView, Seq<char>>(
            "chain.json has no entries"@,
        ),
        chain_of(label, Err(e), roots) == Err::<ChainView, Seq<char>>(
            "invalid space label '"@ + label + "': "@ + e,
        ),
{
    assert(roots.push(tip).last() == tip);
}

/// The entry of a handle is the label below its space and the bytes of its script; a handle that does
/// not parse, has no such label, or has a script that is no hexadecimal text is at fault, in that
/// order.
pub proof fn lemma_entries_of_handles(req: HandleReqView, name: HandleNameView, e: Seq<char>)
    ensures
        entry_of(req, Err(e)) == Err::<BatchEntryView, Seq<char>>(
            "invalid handle '"@ + req.handle + "': "@ + e,
        ),
        entry_of(req, Ok(name)) == match name.subname {
            None => Err::<BatchEntryView, Seq<char>>(
                "handle '"@ + req.handle + "' has no subspace"@,
            ),
            Some(sub_label) => match unhex(req.script_pubkey) {
                None => Err("invalid script_pubkey hex for "@ + req.handle),
                Some(script_pubkey) => Ok(BatchEntryView { sub_label, script_pubkey }),
            },
        },
{
}

/// A batch holds the entries of its handles in order, one for each; the first handle at fault is the
/// fault of the batch.
pub proof fn lemma_batches_hold_the_entries(reqs: Seq<HandleReqView>, more: HandleReqView)
    ensures
        batch_of(Seq::empty()) == Ok::<Seq<BatchEntryView>, Seq<char>>(Seq::empty()),
        batch_of(reqs.push(more)) == match (batch_of(reqs), entry_of(more, handle_name(more.handle))) {
            (Err(e), _) => Err::<Seq<BatchEntryView>, Seq<char>>(e),
            (Ok(_), Err(e)) => Err(e),
            (Ok(entries), Ok(entry)) => Ok(entries.push(entry)),
        },
{
    assert(reqs.push(more).drop_last() =~= reqs);
    assert(reqs.push(more).last() == more);
}

/// A handle is staged under its label with the bytes of its script, and is at fault where either
/// cannot be read.
pub proof fn lemma_handles_are_staged(req: HandleReqView, sub_label: Seq<char>, e: Seq<char>)
    ensures
        staged(req, Err(e)) == Err::<BatchEntryView, Seq<char>>(
            "invalid subname in "@ + req.handle + ": "@ + e,
        ),
        staged(req, Ok(sub_label)) == match unhex(req.script_pubkey) {
            None => Err::<BatchEntryView, Seq<char>>("invalid script_pubkey for "@ + req.handle),
            Some(script_pubkey) => Ok(BatchEntryView { sub_label, script_pubkey }),
        },
{
}

/// The summary tells the space, where from and where to, how many handles there are, and each of
/// them in order.
pub proof fn lemma_summaries(
    space: Seq<char>,
    source: Seq<char>,
    dest: Seq<char>,
    handles: Seq<HandleReqView>,
    i: int,
)
    requires
        0 <= i < handles.len(),
    ensures
        ({
            let lines = summary(space, source, dest, handles);
            &&& lines.len() == 4 + handles.len()
            &&& lines[0] == "space:      "@ + space
            &&& lines[1] == "source:     "@ + source
            &&& lines[2] == "dest:       "@ + dest
            &&& lines[3] == "handles:    "@ + decimal(handles.len())
            &&& lines[4 + i] == "  - "@ + handles[i].handle
        }),
{
}

/// A secret is shown in hexadecimal, with a mark in front where that is asked for; where there is none,
/// that is said.
pub proof fn lemma_secrets_in_hexadecimal(secret: Seq<u8>, prefix: bool)
    ensures
        secret_text(Some(secret), false) == Ok::<Seq<char>, Seq<char>>(hex_text(secret)),
        secret_text(Some(secret), true) == Ok::<Seq<char>, Seq<char>>("0x"@ + hex_text(secret)),
        secret_text(None, prefix) == Err::<Seq<char>, Seq<char>>(
            "invalid WIF (bad Base58Check encoding or checksum)"@,
        ),
{
}

} // verus!
