//! The state smoke check of the gRPC demo, as a sequence of steps: the app
//! performs each step's call and hands its outcome to the step function,
//! which decides the next step or the check's result. Errors arrive
//! rendered as the app's `Debug` text.
//!
//! The steps: save a binary value, read it back byte for byte (and its
//! etag), save again with that etag, save once more with the now stale
//! etag (which must be refused as a conflict), delete, read nothing back,
//! and read the app id from the runtime metadata.

use vstd::prelude::*;
use crate::cloud_event::json_object_members;
use crate::failure::ErrorKind;
use crate::json_text::json_reformatted;
use crate::runtime_doc::{id_member, metadata_app_id};
use crate::text::concat;
use vstd::utf8::encode_utf8;

verus! {

/// The bytes the check stores: neither valid JSON nor valid UTF-8.
pub open spec fn smoke_bytes() -> Seq<u8> {
    seq![0x00u8, 0xFFu8, 0x9Fu8, 0x92u8, 0x96u8, 0x22u8, 0x7Bu8]
}

/// The bytes the check stores.
pub fn smoke_binary() -> (b: Vec<u8>)
    ensures
        b@ == smoke_bytes(),
{
    let b: Vec<u8> = vec![0x00, 0xFF, 0x9F, 0x92, 0x96, 0x22, 0x7B];
    assert(b@ =~= smoke_bytes());
    b
}

/// What the app does next.
pub enum SmokeAction {
    /// Read the value back.
    ReadBinary,
    /// Save `second` with this etag, first-write and strong.
    SaveWithEtag(String),
    /// Save `third` with this (stale) etag, first-write and strong.
    SaveStale(String),
    /// Delete the value.
    Delete,
    /// Read the deleted value.
    ReadDeleted,
    /// Read the runtime metadata document.
    ReadMetadata,
    /// The check ends: the app id, or why it failed.
    Finish(Result<String, String>),
}

/// `r` is the end of the check with the failure `m`.
pub open spec fn fails_with(r: SmokeAction, m: Seq<char>) -> bool {
    r matches SmokeAction::Finish(Err(t)) && t@ == m
}

/// After the first save.
pub fn after_save_binary(saved: Result<(), String>) -> (r: SmokeAction)
    ensures
        match saved {
            Ok(()) => r is ReadBinary,
            Err(e) => fails_with(r, "save failed: "@ + e@),
        },
{
    match saved {
        Ok(()) => SmokeAction::ReadBinary,
        Err(e) => SmokeAction::Finish(Err(concat("save failed: ", e.as_str()))),
    }
}

/// After reading the value back: the stored bytes, their etag and their
/// `Debug` rendering, when something is stored.
pub fn after_read_binary(read: Result<Option<(Vec<u8>, Option<String>, String)>, String>) -> (r: SmokeAction)
    ensures
        match read {
            Err(e) => fails_with(r, "get failed: "@ + e@),
            Ok(None) => fails_with(r, "get returned none after save"@),
            Ok(Some((data, etag, shown))) => if data@ != smoke_bytes() {
                fails_with(r, "binary value did not roundtrip: wrote [0, 255, 159, 146, 150, 34, 123], read "@ + shown@)
            } else {
                match etag {
                    Some(t) => r matches SmokeAction::SaveWithEtag(x) && x == t,
                    None => fails_with(r, "store returned no etag"@),
                }
            },
        },
{
    match read {
        Err(e) => SmokeAction::Finish(Err(concat("get failed: ", e.as_str()))),
        Ok(None) => {
            let m = concat("get returned none after save", "");
            proof {
                reveal_strlit("");
                assert(m@ =~= "get returned none after save"@);
            }
            SmokeAction::Finish(Err(m))
        },
        Ok(Some((data, etag, shown))) => {
            let expected = smoke_binary();
            let mut same = data.len() == expected.len();
            let mut i: usize = 0;
            while same && i < data.len()
                invariant
                    i <= data.len(),
                    expected@ == smoke_bytes(),
                    same ==> data.len() == expected.len(),
                    same ==> data@.take(i as int) == expected@.take(i as int),
                    !same ==> data@ != smoke_bytes(),
                decreases data.len() - i + if same { 1int } else { 0int },
            {
                if data[i] != expected[i] {
                    same = false;
                } else {
                    assert(data@.take(i + 1) =~= data@.take(i as int).push(data@[i as int]));
                    assert(expected@.take(i + 1) =~= expected@.take(i as int).push(expected@[i as int]));
                    i += 1;
                }
            }
            if same {
                assert(data@ =~= data@.take(data.len() as int));
                assert(expected@ =~= expected@.take(expected.len() as int));
            }
            if !same {
                let m = concat("binary value did not roundtrip: wrote [0, 255, 159, 146, 150, 34, 123], read ", shown.as_str());
                return SmokeAction::Finish(Err(m));
            }
            match etag {
                Some(t) => SmokeAction::SaveWithEtag(t),
                None => {
                    let m = concat("store returned no etag", "");
                    proof {
                        reveal_strlit("");
                        assert(m@ =~= "store returned no etag"@);
                    }
                    SmokeAction::Finish(Err(m))
                },
            }
        },
    }
}

/// After the save with the read etag (the etag travels on).
pub fn after_save_with_etag(saved: Result<(), String>, etag: String) -> (r: SmokeAction)
    ensures
        match saved {
            Ok(()) => r matches SmokeAction::SaveStale(x) && x == etag,
            Err(e) => fails_with(r, "etag save failed: "@ + e@),
        },
{
    match saved {
        Ok(()) => SmokeAction::SaveStale(etag),
        Err(e) => SmokeAction::Finish(Err(concat("etag save failed: ", e.as_str()))),
    }
}

/// After the save with the stale etag: `refused` is the kind of its error,
/// if it failed; `shown` the `Debug` rendering of its result. Only a
/// conflict (`aborted`, or `internal` as some stores report it) passes.
pub fn after_save_stale(refused: Option<ErrorKind>, shown: String) -> (r: SmokeAction)
    ensures
        (refused == Some(ErrorKind::Aborted) || refused == Some(ErrorKind::Internal)) ==> r is Delete,
        !(refused == Some(ErrorKind::Aborted) || refused == Some(ErrorKind::Internal)) ==> fails_with(
            r,
            "stale etag write was not rejected: "@ + shown@,
        ),
{
    match refused {
        Some(ErrorKind::Aborted) | Some(ErrorKind::Internal) => SmokeAction::Delete,
        _ => SmokeAction::Finish(Err(concat("stale etag write was not rejected: ", shown.as_str()))),
    }
}

/// After the delete.
pub fn after_delete(deleted: Result<(), String>) -> (r: SmokeAction)
    ensures
        match deleted {
            Ok(()) => r is ReadDeleted,
            Err(e) => fails_with(r, "delete failed: "@ + e@),
        },
{
    match deleted {
        Ok(()) => SmokeAction::ReadDeleted,
        Err(e) => SmokeAction::Finish(Err(concat("delete failed: ", e.as_str()))),
    }
}

/// After reading the deleted value: whether something is still stored.
pub fn after_read_deleted(read: Result<bool, String>) -> (r: SmokeAction)
    ensures
        match read {
            Err(e) => fails_with(r, "get after delete failed: "@ + e@),
            Ok(true) => fails_with(r, "key still present after delete"@),
            Ok(false) => r is ReadMetadata,
        },
{
    match read {
        Err(e) => SmokeAction::Finish(Err(concat("get after delete failed: ", e.as_str()))),
        Ok(true) => {
            let m = concat("key still present after delete", "");
            proof {
                reveal_strlit("");
                assert(m@ =~= "key still present after delete"@);
            }
            SmokeAction::Finish(Err(m))
        },
        Ok(false) => SmokeAction::ReadMetadata,
    }
}

/// After reading the metadata document: the check ends with the app id it
/// names (see [`metadata_app_id`]).
pub fn after_read_metadata(metadata: Result<String, String>) -> (r: SmokeAction)
    ensures
        match metadata {
            Err(e) => fails_with(r, "get-metadata failed: "@ + e@),
            Ok(text) => match json_object_members(encode_utf8(text@)) {
                Err(e) => fails_with(r, "metadata is not JSON: "@ + e),
                Ok(members) => if id_member(members).len() > 0 {
                    r matches SmokeAction::Finish(Ok(id)) && id@ == id_member(members)
                } else {
                    fails_with(r, "metadata has no id: "@ + match json_reformatted(text@) {
                        Some(d) => d,
                        None => text@,
                    })
                },
            },
        },
{
    match metadata {
        Err(e) => SmokeAction::Finish(Err(concat("get-metadata failed: ", e.as_str()))),
        Ok(text) => SmokeAction::Finish(metadata_app_id(text.as_str())),
    }
}

} // verus!
