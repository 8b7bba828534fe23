//! Parsers and encoders for the message payloads: each model type as it
//! lies inside a frame's payload bytes.
//!
//! Conventions follow `wire`: a spec parser `p_*` over a byte sequence and
//! an offset, a spec encoder `e_*`, executable readers and writers proved
//! against them, and round-trip lemmas. Multi-field encodings are grouped
//! to the right so that each field splits off the front one at a time.

use vstd::prelude::*;

use crate::error::CodecError;
use crate::log_types::ArrowMsg;
use crate::log_types::ArrowMsgView;
use crate::log_types::BlueprintActivationCommand;
use crate::log_types::BlueprintActivationCommandView;
use crate::log_types::FileSource;
use crate::log_types::FileSourceView;
use crate::log_types::PythonVersion;
use crate::log_types::PythonVersionView;
use crate::log_types::SetStoreInfo;
use crate::log_types::SetStoreInfoView;
use crate::log_types::StoreId;
use crate::log_types::StoreIdView;
use crate::log_types::StoreInfo;
use crate::log_types::StoreInfoView;
use crate::log_types::StoreKind;
use crate::log_types::StoreSource;
use crate::log_types::StoreSourceView;
use crate::log_types::Tuid;
use crate::log_types::ApplicationId;
use crate::wire::e_bool;
use crate::wire::e_string;
use crate::wire::e_u64;
use crate::wire::e_u8;
use crate::wire::lemma_e_u64_len;
use crate::wire::lemma_read_bool;
use crate::wire::lemma_read_string;
use crate::wire::lemma_read_u64;
use crate::wire::lemma_read_u8;
use crate::wire::p_bool;
use crate::wire::p_string;
use crate::wire::p_u64;
use crate::wire::p_u8;
use crate::wire::read_bool;
use crate::wire::read_string;
use crate::wire::read_u64;
use crate::wire::read_u8;
use crate::wire::write_bool;
use crate::wire::write_string;
use crate::wire::write_u64;
use crate::wire::write_u8;

verus! {

/// One more than the largest length that fits the `u64` length prefixes.
pub open spec fn u64_bound() -> int {
    0x1_0000_0000_0000_0000
}

/// Splits bytes known to hold a concatenation into its two parts.
pub proof fn lemma_split2(b: Seq<u8>, i: int, x: Seq<u8>, y: Seq<u8>)
    requires
        0 <= i,
        i + x.len() + y.len() <= b.len(),
        b.subrange(i, i + x.len() + y.len()) == x + y,
    ensures
        b.subrange(i, i + x.len()) == x,
        b.subrange(i + x.len(), i + x.len() + y.len()) == y,
{
    assert forall|k: int| 0 <= k < x.len() implies #[trigger] b.subrange(i, i + x.len())[k]
        == x[k] by {
        assert(b.subrange(i, i + x.len() + y.len())[k] == (x + y)[k]);
    }
    assert(b.subrange(i, i + x.len()) =~= x);
    assert forall|k: int|
        0 <= k < y.len() implies #[trigger] b.subrange(i + x.len(), i + x.len() + y.len())[k]
        == y[k] by {
        assert(b.subrange(i, i + x.len() + y.len())[x.len() + k] == (x + y)[x.len() + k]);
        assert((x + y)[x.len() + k] == y[k]);
        assert(b.subrange(i, i + x.len() + y.len())[x.len() + k] == b[i + x.len() + k]);
        assert(b.subrange(i + x.len(), i + x.len() + y.len())[k] == b[i + x.len() + k]);
    }
    assert(b.subrange(i + x.len(), i + x.len() + y.len()) =~= y);
}

// ---------------------------------------------------------------- Tuid

pub open spec fn p_tuid(b: Seq<u8>, i: int) -> Result<(Tuid, int), CodecError> {
    match p_u64(b, i) {
        Ok((time_ns, j)) => match p_u64(b, j) {
            Ok((inc, k)) => Ok((Tuid { time_ns, inc }, k)),
            Err(e) => Err(e),
        },
        Err(e) => Err(e),
    }
}

pub open spec fn e_tuid(t: Tuid) -> Seq<u8> {
    e_u64(t.time_ns) + e_u64(t.inc)
}

pub fn read_tuid(b: &[u8], at: usize) -> (r: Result<(Tuid, usize), CodecError>)
    ensures
        r matches Ok(p) ==> p_tuid(b@, at as int) == Ok::<(Tuid, int), CodecError>(
            (p.0, p.1 as int),
        ) && at < p.1 <= b@.len(),
        r matches Err(e) ==> p_tuid(b@, at as int) == Err::<(Tuid, int), CodecError>(e),
{
    let (time_ns, j) = match read_u64(b, at) {
        Ok(p) => p,
        Err(e) => {
            return Err(e);
        },
    };
    let (inc, k) = match read_u64(b, j) {
        Ok(p) => p,
        Err(e) => {
            return Err(e);
        },
    };
    Ok((Tuid { time_ns, inc }, k))
}

pub fn write_tuid(out: &mut Vec<u8>, t: &Tuid)
    ensures
        final(out)@ == old(out)@ + e_tuid(*t),
{
    write_u64(out, t.time_ns);
    write_u64(out, t.inc);
    proof {
        assert(out@ =~= old(out)@ + e_tuid(*t));
    }
}

pub proof fn lemma_read_tuid(b: Seq<u8>, i: int, t: Tuid)
    requires
        0 <= i,
        i + e_tuid(t).len() <= b.len(),
        b.subrange(i, i + e_tuid(t).len()) == e_tuid(t),
    ensures
        p_tuid(b, i) == Ok::<(Tuid, int), CodecError>((t, i + e_tuid(t).len())),
{
    lemma_e_u64_len(t.time_ns);
    lemma_e_u64_len(t.inc);
    lemma_split2(b, i, e_u64(t.time_ns), e_u64(t.inc));
    lemma_read_u64(b, i, t.time_ns);
    lemma_read_u64(b, i + 8, t.inc);
}

// ------------------------------------------------------------- StoreId

pub open spec fn e_store_kind(k: StoreKind) -> Seq<u8> {
    match k {
        StoreKind::Recording => e_u8(0),
        StoreKind::Blueprint => e_u8(1),
    }
}

pub open spec fn p_store_kind(b: Seq<u8>, i: int) -> Result<(StoreKind, int), CodecError> {
    match p_u8(b, i) {
        Ok((t, j)) => if t == 0 {
            Ok((StoreKind::Recording, j))
        } else if t == 1 {
            Ok((StoreKind::Blueprint, j))
        } else {
            Err(CodecError::InvalidTag(t))
        },
        Err(e) => Err(e),
    }
}

pub fn read_store_kind(b: &[u8], at: usize) -> (r: Result<(StoreKind, usize), CodecError>)
    ensures
        r matches Ok(p) ==> p_store_kind(b@, at as int) == Ok::<(StoreKind, int), CodecError>(
            (p.0, p.1 as int),
        ) && at < p.1 <= b@.len(),
        r matches Err(e) ==> p_store_kind(b@, at as int) == Err::<(StoreKind, int), CodecError>(e),
{
    let (t, j) = match read_u8(b, at) {
        Ok(p) => p,
        Err(e) => {
            return Err(e);
        },
    };
    if t == 0 {
        Ok((StoreKind::Recording, j))
    } else if t == 1 {
        Ok((StoreKind::Blueprint, j))
    } else {
        Err(CodecError::InvalidTag(t))
    }
}

pub proof fn lemma_read_store_kind(b: Seq<u8>, i: int, k: StoreKind)
    requires
        0 <= i,
        i + 1 <= b.len(),
        b.subrange(i, i + 1) == e_store_kind(k),
    ensures
        p_store_kind(b, i) == Ok::<(StoreKind, int), CodecError>((k, i + 1)),
{
    match k {
        StoreKind::Recording => lemma_read_u8(b, i, 0),
        StoreKind::Blueprint => lemma_read_u8(b, i, 1),
    }
}

pub open spec fn p_store_id(b: Seq<u8>, i: int) -> Result<(StoreIdView, int), CodecError> {
    match p_store_kind(b, i) {
        Ok((kind, j)) => match p_string(b, j) {
            Ok((id, k)) => Ok((StoreIdView { kind, id }, k)),
            Err(e) => Err(e),
        },
        Err(e) => Err(e),
    }
}

pub open spec fn e_store_id(v: StoreIdView) -> Seq<u8> {
    e_store_kind(v.kind) + e_string(v.id)
}

pub open spec fn wf_store_id(v: StoreIdView) -> bool {
    v.id.len() < u64_bound()
}

pub fn read_store_id(b: &[u8], at: usize) -> (r: Result<(StoreId, usize), CodecError>)
    ensures
        r matches Ok(p) ==> p_store_id(b@, at as int) == Ok::<(StoreIdView, int), CodecError>(
            (p.0@, p.1 as int),
        ) && at < p.1 <= b@.len(),
        r matches Err(e) ==> p_store_id(b@, at as int) == Err::<(StoreIdView, int), CodecError>(e),
{
    let (kind, j) = match read_store_kind(b, at) {
        Ok(p) => p,
        Err(e) => {
            return Err(e);
        },
    };
    let (id, k) = match read_string(b, j) {
        Ok(p) => p,
        Err(e) => {
            return Err(e);
        },
    };
    Ok((StoreId { kind, id }, k))
}

pub fn write_store_id(out: &mut Vec<u8>, v: &StoreId)
    ensures
        final(out)@ == old(out)@ + e_store_id(v@),
{
    let tag: u8 = match v.kind {
        StoreKind::Recording => 0,
        StoreKind::Blueprint => 1,
    };
    write_u8(out, tag);
    write_string(out, v.id.as_str());
    proof {
        assert(out@ =~= old(out)@ + e_store_id(v@));
    }
}

pub proof fn lemma_read_store_id(b: Seq<u8>, i: int, v: StoreIdView)
    requires
        0 <= i,
        wf_store_id(v),
        i + e_store_id(v).len() <= b.len(),
        b.subrange(i, i + e_store_id(v).len()) == e_store_id(v),
    ensures
        p_store_id(b, i) == Ok::<(StoreIdView, int), CodecError>((v, i + e_store_id(v).len())),
{
    lemma_split2(b, i, e_store_kind(v.kind), e_string(v.id));
    lemma_read_store_kind(b, i, v.kind);
    lemma_read_string(b, i + 1, v.id);
    assert(p_store_id(b, i) matches Ok(p) && p.0 =~= v);
}

// ------------------------------------------------------------ options

pub open spec fn p_opt_store_id(b: Seq<u8>, i: int) -> Result<
    (Option<StoreIdView>, int),
    CodecError,
> {
    match p_u8(b, i) {
        Ok((t, j)) => if t == 0 {
            Ok((None, j))
        } else if t == 1 {
            match p_store_id(b, j) {
                Ok((v, k)) => Ok((Some(v), k)),
                Err(e) => Err(e),
            }
        } else {
            Err(CodecError::InvalidTag(t))
        },
        Err(e) => Err(e),
    }
}

pub open spec fn e_opt_store_id(v: Option<StoreIdView>) -> Seq<u8> {
    match v {
        None => e_u8(0),
        Some(s) => e_u8(1) + e_store_id(s),
    }
}

pub open spec fn wf_opt_store_id(v: Option<StoreIdView>) -> bool {
    match v {
        None => true,
        Some(s) => wf_store_id(s),
    }
}

pub fn read_opt_store_id(b: &[u8], at: usize) -> (r: Result<(Option<StoreId>, usize), CodecError>)
    ensures
        r matches Ok(p) ==> p_opt_store_id(b@, at as int) == Ok::<
            (Option<StoreIdView>, int),
            CodecError,
        >((crate::log_types::view_opt_store_id(p.0), p.1 as int)) && at < p.1 <= b@.len(),
        r matches Err(e) ==> p_opt_store_id(b@, at as int) == Err::<
            (Option<StoreIdView>, int),
            CodecError,
        >(e),
{
    let (t, j) = match read_u8(b, at) {
        Ok(p) => p,
        Err(e) => {
            return Err(e);
        },
    };
    if t == 0 {
        Ok((None, j))
    } else if t == 1 {
        let (v, k) = match read_store_id(b, j) {
            Ok(p) => p,
            Err(e) => {
                return Err(e);
            },
        };
        Ok((Some(v), k))
    } else {
        Err(CodecError::InvalidTag(t))
    }
}

pub fn write_opt_store_id(out: &mut Vec<u8>, v: &Option<StoreId>)
    ensures
        final(out)@ == old(out)@ + e_opt_store_id(crate::log_types::view_opt_store_id(*v)),
{
    match v {
        None => {
            write_u8(out, 0);
        },
        Some(s) => {
            write_u8(out, 1);
            write_store_id(out, s);
            proof {
                assert(out@ =~= old(out)@ + e_opt_store_id(
                    crate::log_types::view_opt_store_id(*v),
                ));
            }
        },
    }
}

pub proof fn lemma_read_opt_store_id(b: Seq<u8>, i: int, v: Option<StoreIdView>)
    requires
        0 <= i,
        wf_opt_store_id(v),
        i + e_opt_store_id(v).len() <= b.len(),
        b.subrange(i, i + e_opt_store_id(v).len()) == e_opt_store_id(v),
    ensures
        p_opt_store_id(b, i) == Ok::<(Option<StoreIdView>, int), CodecError>(
            (v, i + e_opt_store_id(v).len()),
        ),
{
    match v {
        None => {
            lemma_read_u8(b, i, 0);
        },
        Some(s) => {
            lemma_split2(b, i, e_u8(1), e_store_id(s));
            lemma_read_u8(b, i, 1);
            lemma_read_store_id(b, i + 1, s);
        },
    }
}

pub open spec fn p_opt_string(b: Seq<u8>, i: int) -> Result<(Option<Seq<char>>, int), CodecError> {
    match p_u8(b, i) {
        Ok((t, j)) => if t == 0 {
            Ok((None, j))
        } else if t == 1 {
            match p_string(b, j) {
                Ok((v, k)) => Ok((Some(v), k)),
                Err(e) => Err(e),
            }
        } else {
            Err(CodecError::InvalidTag(t))
        },
        Err(e) => Err(e),
    }
}

pub open spec fn e_opt_string(v: Option<Seq<char>>) -> Seq<u8> {
    match v {
        None => e_u8(0),
        Some(s) => e_u8(1) + e_string(s),
    }
}

pub open spec fn wf_opt_string(v: Option<Seq<char>>) -> bool {
    match v {
        None => true,
        Some(s) => s.len() < u64_bound(),
    }
}

pub fn read_opt_app_id(b: &[u8], at: usize) -> (r: Result<
    (Option<ApplicationId>, usize),
    CodecError,
>)
    ensures
        r matches Ok(p) ==> p_opt_string(b@, at as int) == Ok::<
            (Option<Seq<char>>, int),
            CodecError,
        >((crate::log_types::view_opt_app_id(p.0), p.1 as int)) && at < p.1 <= b@.len(),
        r matches Err(e) ==> p_opt_string(b@, at as int) == Err::<
            (Option<Seq<char>>, int),
            CodecError,
        >(e),
{
    let (t, j) = match read_u8(b, at) {
        Ok(p) => p,
        Err(e) => {
            return Err(e);
        },
    };
    if t == 0 {
        Ok((None, j))
    } else if t == 1 {
        let (v, k) = match read_string(b, j) {
            Ok(p) => p,
            Err(e) => {
                return Err(e);
            },
        };
        Ok((Some(ApplicationId(v)), k))
    } else {
        Err(CodecError::InvalidTag(t))
    }
}

pub fn write_opt_app_id(out: &mut Vec<u8>, v: &Option<ApplicationId>)
    ensures
        final(out)@ == old(out)@ + e_opt_string(crate::log_types::view_opt_app_id(*v)),
{
    match v {
        None => {
            write_u8(out, 0);
        },
        Some(s) => {
            write_u8(out, 1);
            write_string(out, s.0.as_str());
            proof {
                assert(out@ =~= old(out)@ + e_opt_string(crate::log_types::view_opt_app_id(*v)));
            }
        },
    }
}

pub proof fn lemma_read_opt_string(b: Seq<u8>, i: int, v: Option<Seq<char>>)
    requires
        0 <= i,
        wf_opt_string(v),
        i + e_opt_string(v).len() <= b.len(),
        b.subrange(i, i + e_opt_string(v).len()) == e_opt_string(v),
    ensures
        p_opt_string(b, i) == Ok::<(Option<Seq<char>>, int), CodecError>(
            (v, i + e_opt_string(v).len()),
        ),
{
    match v {
        None => {
            lemma_read_u8(b, i, 0);
        },
        Some(s) => {
            lemma_split2(b, i, e_u8(1), e_string(s));
            lemma_read_u8(b, i, 1);
            lemma_read_string(b, i + 1, s);
        },
    }
}

// ----------------------------------------------------- PythonVersion

pub open spec fn p_python_version(b: Seq<u8>, i: int) -> Result<
    (PythonVersionView, int),
    CodecError,
> {
    match p_u8(b, i) {
        Ok((major, j)) => match p_u8(b, j) {
            Ok((minor, k)) => match p_u8(b, k) {
                Ok((patch, l)) => match p_string(b, l) {
                    Ok((suffix, m)) => Ok((PythonVersionView { major, minor, patch, suffix }, m)),
                    Err(e) => Err(e),
                },
                Err(e) => Err(e),
            },
            Err(e) => Err(e),
        },
        Err(e) => Err(e),
    }
}

pub open spec fn e_python_version(v: PythonVersionView) -> Seq<u8> {
    e_u8(v.major) + (e_u8(v.minor) + (e_u8(v.patch) + e_string(v.suffix)))
}

pub open spec fn wf_python_version(v: PythonVersionView) -> bool {
    v.suffix.len() < u64_bound()
}

pub fn read_python_version(b: &[u8], at: usize) -> (r: Result<
    (PythonVersion, usize),
    CodecError,
>)
    ensures
        r matches Ok(p) ==> p_python_version(b@, at as int) == Ok::<
            (PythonVersionView, int),
            CodecError,
        >((p.0@, p.1 as int)) && at < p.1 <= b@.len(),
        r matches Err(e) ==> p_python_version(b@, at as int) == Err::<
            (PythonVersionView, int),
            CodecError,
        >(e),
{
    let (major, j) = match read_u8(b, at) {
        Ok(p) => p,
        Err(e) => {
            return Err(e);
        },
    };
    let (minor, k) = match read_u8(b, j) {
        Ok(p) => p,
        Err(e) => {
            return Err(e);
        },
    };
    let (patch, l) = match read_u8(b, k) {
        Ok(p) => p,
        Err(e) => {
            return Err(e);
        },
    };
    let (suffix, m) = match read_string(b, l) {
        Ok(p) => p,
        Err(e) => {
            return Err(e);
        },
    };
    Ok((PythonVersion { major, minor, patch, suffix }, m))
}

pub fn write_python_version(out: &mut Vec<u8>, v: &PythonVersion)
    ensures
        final(out)@ == old(out)@ + e_python_version(v@),
{
    write_u8(out, v.major);
    write_u8(out, v.minor);
    write_u8(out, v.patch);
    write_string(out, v.suffix.as_str());
    proof {
        assert(out@ =~= old(out)@ + e_python_version(v@));
    }
}

pub proof fn lemma_read_python_version(b: Seq<u8>, i: int, v: PythonVersionView)
    requires
        0 <= i,
        wf_python_version(v),
        i + e_python_version(v).len() <= b.len(),
        b.subrange(i, i + e_python_version(v).len()) == e_python_version(v),
    ensures
        p_python_version(b, i) == Ok::<(PythonVersionView, int), CodecError>(
            (v, i + e_python_version(v).len()),
        ),
{
    lemma_split2(b, i, e_u8(v.major), e_u8(v.minor) + (e_u8(v.patch) + e_string(v.suffix)));
    lemma_split2(b, i + 1, e_u8(v.minor), e_u8(v.patch) + e_string(v.suffix));
    lemma_split2(b, i + 2, e_u8(v.patch), e_string(v.suffix));
    lemma_read_u8(b, i, v.major);
    lemma_read_u8(b, i + 1, v.minor);
    lemma_read_u8(b, i + 2, v.patch);
    lemma_read_string(b, i + 3, v.suffix);
    assert(p_python_version(b, i) matches Ok(p) && p.0 =~= v);
}

// -------------------------------------------------------- FileSource

pub open spec fn p_file_source(b: Seq<u8>, i: int) -> Result<(FileSourceView, int), CodecError> {
    match p_u8(b, i) {
        Ok((t, j)) => if t == 0 {
            Ok((FileSourceView::Cli, j))
        } else if t == 1 {
            Ok((FileSourceView::Uri, j))
        } else if t == 2 || t == 3 {
            match p_opt_string(b, j) {
                Ok((app, k)) => match p_opt_store_id(b, k) {
                    Ok((rec, l)) => match p_bool(b, l) {
                        Ok((force, m)) => if t == 2 {
                            Ok(
                                (
                                    FileSourceView::DragAndDrop {
                                        recommended_application_id: app,
                                        recommended_recording_id: rec,
                                        force_store_info: force,
                                    },
                                    m,
                                ),
                            )
                        } else {
                            Ok(
                                (
                                    FileSourceView::FileDialog {
                                        recommended_application_id: app,
                                        recommended_recording_id: rec,
                                        force_store_info: force,
                                    },
                                    m,
                                ),
                            )
                        },
                        Err(e) => Err(e),
                    },
                    Err(e) => Err(e),
                },
                Err(e) => Err(e),
            }
        } else if t == 4 {
            Ok((FileSourceView::Sdk, j))
        } else {
            Err(CodecError::InvalidTag(t))
        },
        Err(e) => Err(e),
    }
}

pub open spec fn e_file_source(v: FileSourceView) -> Seq<u8> {
    match v {
        FileSourceView::Cli => e_u8(0),
        FileSourceView::Uri => e_u8(1),
        FileSourceView::DragAndDrop {
            recommended_application_id,
            recommended_recording_id,
            force_store_info,
        } => e_u8(2) + (e_opt_string(recommended_application_id) + (e_opt_store_id(
            recommended_recording_id,
        ) + e_bool(force_store_info))),
        FileSourceView::FileDialog {
            recommended_application_id,
            recommended_recording_id,
            force_store_info,
        } => e_u8(3) + (e_opt_string(recommended_application_id) + (e_opt_store_id(
            recommended_recording_id,
        ) + e_bool(force_store_info))),
        FileSourceView::Sdk => e_u8(4),
    }
}

pub open spec fn wf_file_source(v: FileSourceView) -> bool {
    match v {
        FileSourceView::DragAndDrop {
            recommended_application_id,
            recommended_recording_id,
            ..
        } => wf_opt_string(recommended_application_id) && wf_opt_store_id(
            recommended_recording_id,
        ),
        FileSourceView::FileDialog {
            recommended_application_id,
            recommended_recording_id,
            ..
        } => wf_opt_string(recommended_application_id) && wf_opt_store_id(
            recommended_recording_id,
        ),
        _ => true,
    }
}

pub fn read_file_source(b: &[u8], at: usize) -> (r: Result<(FileSource, usize), CodecError>)
    ensures
        r matches Ok(p) ==> p_file_source(b@, at as int) == Ok::<
            (FileSourceView, int),
            CodecError,
        >((p.0@, p.1 as int)) && at < p.1 <= b@.len(),
        r matches Err(e) ==> p_file_source(b@, at as int) == Err::<
            (FileSourceView, int),
            CodecError,
        >(e),
{
    let (t, j) = match read_u8(b, at) {
        Ok(p) => p,
        Err(e) => {
            return Err(e);
        },
    };
    if t == 0 {
        Ok((FileSource::Cli, j))
    } else if t == 1 {
        Ok((FileSource::Uri, j))
    } else if t == 2 || t == 3 {
        let (app, k) = match read_opt_app_id(b, j) {
            Ok(p) => p,
            Err(e) => {
                return Err(e);
            },
        };
        let (rec, l) = match read_opt_store_id(b, k) {
            Ok(p) => p,
            Err(e) => {
                return Err(e);
            },
        };
        let (force, m) = match read_bool(b, l) {
            Ok(p) => p,
            Err(e) => {
                return Err(e);
            },
        };
        if t == 2 {
            Ok(
                (
                    FileSource::DragAndDrop {
                        recommended_application_id: app,
                        recommended_recording_id: rec,
                        force_store_info: force,
                    },
                    m,
                ),
            )
        } else {
            Ok(
                (
                    FileSource::FileDialog {
                        recommended_application_id: app,
                        recommended_recording_id: rec,
                        force_store_info: force,
                    },
                    m,
                ),
            )
        }
    } else if t == 4 {
        Ok((FileSource::Sdk, j))
    } else {
        Err(CodecError::InvalidTag(t))
    }
}

pub fn write_file_source(out: &mut Vec<u8>, v: &FileSource)
    ensures
        final(out)@ == old(out)@ + e_file_source(v@),
{
    match v {
        FileSource::Cli => {
            write_u8(out, 0);
        },
        FileSource::Uri => {
            write_u8(out, 1);
        },
        FileSource::DragAndDrop {
            recommended_application_id,
            recommended_recording_id,
            force_store_info,
        } => {
            write_u8(out, 2);
            write_opt_app_id(out, recommended_application_id);
            write_opt_store_id(out, recommended_recording_id);
            write_bool(out, *force_store_info);
            proof {
                assert(out@ =~= old(out)@ + e_file_source(v@));
            }
        },
        FileSource::FileDialog {
            recommended_application_id,
            recommended_recording_id,
            force_store_info,
        } => {
            write_u8(out, 3);
            write_opt_app_id(out, recommended_application_id);
            write_opt_store_id(out, recommended_recording_id);
            write_bool(out, *force_store_info);
            proof {
                assert(out@ =~= old(out)@ + e_file_source(v@));
            }
        },
        FileSource::Sdk => {
            write_u8(out, 4);
        },
    }
}

pub proof fn lemma_read_file_source(b: Seq<u8>, i: int, v: FileSourceView)
    requires
        0 <= i,
        wf_file_source(v),
        i + e_file_source(v).len() <= b.len(),
        b.subrange(i, i + e_file_source(v).len()) == e_file_source(v),
    ensures
        p_file_source(b, i) == Ok::<(FileSourceView, int), CodecError>(
            (v, i + e_file_source(v).len()),
        ),
{
    match v {
        FileSourceView::Cli => {
            lemma_read_u8(b, i, 0);
        },
        FileSourceView::Uri => {
            lemma_read_u8(b, i, 1);
        },
        FileSourceView::DragAndDrop {
            recommended_application_id,
            recommended_recording_id,
            force_store_info,
        } => {
            let ea = e_opt_string(recommended_application_id);
            let er = e_opt_store_id(recommended_recording_id);
            let ef = e_bool(force_store_info);
            lemma_split2(b, i, e_u8(2), ea + (er + ef));
            lemma_split2(b, i + 1, ea, er + ef);
            lemma_split2(b, i + 1 + ea.len(), er, ef);
            lemma_read_u8(b, i, 2);
            lemma_read_opt_string(b, i + 1, recommended_application_id);
            lemma_read_opt_store_id(b, i + 1 + ea.len(), recommended_recording_id);
            lemma_read_bool(b, i + 1 + ea.len() + er.len(), force_store_info);
        },
        FileSourceView::FileDialog {
            recommended_application_id,
            recommended_recording_id,
            force_store_info,
        } => {
            let ea = e_opt_string(recommended_application_id);
            let er = e_opt_store_id(recommended_recording_id);
            let ef = e_bool(force_store_info);
            lemma_split2(b, i, e_u8(3), ea + (er + ef));
            lemma_split2(b, i + 1, ea, er + ef);
            lemma_split2(b, i + 1 + ea.len(), er, ef);
            lemma_read_u8(b, i, 3);
            lemma_read_opt_string(b, i + 1, recommended_application_id);
            lemma_read_opt_store_id(b, i + 1 + ea.len(), recommended_recording_id);
            lemma_read_bool(b, i + 1 + ea.len() + er.len(), force_store_info);
        },
        FileSourceView::Sdk => {
            lemma_read_u8(b, i, 4);
        },
    }
}

// -------------------------------------------------------- StoreSource

pub open spec fn p_store_source(b: Seq<u8>, i: int) -> Result<(StoreSourceView, int), CodecError> {
    match p_u8(b, i) {
        Ok((t, j)) => if t == 0 {
            Ok((StoreSourceView::Unknown, j))
        } else if t == 1 {
            Ok((StoreSourceView::CSdk, j))
        } else if t == 2 {
            match p_python_version(b, j) {
                Ok((v, k)) => Ok((StoreSourceView::PythonSdk(v), k)),
                Err(e) => Err(e),
            }
        } else if t == 3 {
            match p_string(b, j) {
                Ok((rustc_version, k)) => match p_string(b, k) {
                    Ok((llvm_version, l)) => Ok(
                        (StoreSourceView::RustSdk { rustc_version, llvm_version }, l),
                    ),
                    Err(e) => Err(e),
                },
                Err(e) => Err(e),
            }
        } else if t == 4 {
            match p_file_source(b, j) {
                Ok((file_source, k)) => Ok((StoreSourceView::File { file_source }, k)),
                Err(e) => Err(e),
            }
        } else if t == 5 {
            Ok((StoreSourceView::Viewer, j))
        } else if t == 6 {
            match p_string(b, j) {
                Ok((s, k)) => Ok((StoreSourceView::Other(s), k)),
                Err(e) => Err(e),
            }
        } else {
            Err(CodecError::InvalidTag(t))
        },
        Err(e) => Err(e),
    }
}

pub open spec fn e_store_source(v: StoreSourceView) -> Seq<u8> {
    match v {
        StoreSourceView::Unknown => e_u8(0),
        StoreSourceView::CSdk => e_u8(1),
        StoreSourceView::PythonSdk(py) => e_u8(2) + e_python_version(py),
        StoreSourceView::RustSdk { rustc_version, llvm_version } => e_u8(3) + (e_string(
            rustc_version,
        ) + e_string(llvm_version)),
        StoreSourceView::File { file_source } => e_u8(4) + e_file_source(file_source),
        StoreSourceView::Viewer => e_u8(5),
        StoreSourceView::Other(s) => e_u8(6) + e_string(s),
    }
}

pub open spec fn wf_store_source(v: StoreSourceView) -> bool {
    match v {
        StoreSourceView::PythonSdk(py) => wf_python_version(py),
        StoreSourceView::RustSdk { rustc_version, llvm_version } => rustc_version.len()
            < u64_bound() && llvm_version.len() < u64_bound(),
        StoreSourceView::File { file_source } => wf_file_source(file_source),
        StoreSourceView::Other(s) => s.len() < u64_bound(),
        _ => true,
    }
}

pub fn read_store_source(b: &[u8], at: usize) -> (r: Result<(StoreSource, usize), CodecError>)
    ensures
        r matches Ok(p) ==> p_store_source(b@, at as int) == Ok::<
            (StoreSourceView, int),
            CodecError,
        >((p.0@, p.1 as int)) && at < p.1 <= b@.len(),
        r matches Err(e) ==> p_store_source(b@, at as int) == Err::<
            (StoreSourceView, int),
            CodecError,
        >(e),
{
    let (t, j) = match read_u8(b, at) {
        Ok(p) => p,
        Err(e) => {
            return Err(e);
        },
    };
    if t == 0 {
        Ok((StoreSource::Unknown, j))
    } else if t == 1 {
        Ok((StoreSource::CSdk, j))
    } else if t == 2 {
        let (v, k) = match read_python_version(b, j) {
            Ok(p) => p,
            Err(e) => {
                return Err(e);
            },
        };
        Ok((StoreSource::PythonSdk(v), k))
    } else if t == 3 {
        let (rustc_version, k) = match read_string(b, j) {
            Ok(p) => p,
            Err(e) => {
                return Err(e);
            },
        };
        let (llvm_version, l) = match read_string(b, k) {
            Ok(p) => p,
            Err(e) => {
                return Err(e);
            },
        };
        Ok((StoreSource::RustSdk { rustc_version, llvm_version }, l))
    } else if t == 4 {
        let (file_source, k) = match read_file_source(b, j) {
            Ok(p) => p,
            Err(e) => {
                return Err(e);
            },
        };
        Ok((StoreSource::File { file_source }, k))
    } else if t == 5 {
        Ok((StoreSource::Viewer, j))
    } else if t == 6 {
        let (s, k) = match read_string(b, j) {
            Ok(p) => p,
            Err(e) => {
                return Err(e);
            },
        };
        Ok((StoreSource::Other(s), k))
    } else {
        Err(CodecError::InvalidTag(t))
    }
}

pub fn write_store_source(out: &mut Vec<u8>, v: &StoreSource)
    ensures
        final(out)@ == old(out)@ + e_store_source(v@),
{
    match v {
        StoreSource::Unknown => {
            write_u8(out, 0);
        },
        StoreSource::CSdk => {
            write_u8(out, 1);
        },
        StoreSource::PythonSdk(py) => {
            write_u8(out, 2);
            write_python_version(out, py);
            proof {
                assert(out@ =~= old(out)@ + e_store_source(v@));
            }
        },
        StoreSource::RustSdk { rustc_version, llvm_version } => {
            write_u8(out, 3);
            write_string(out, rustc_version.as_str());
            write_string(out, llvm_version.as_str());
            proof {
                assert(out@ =~= old(out)@ + e_store_source(v@));
            }
        },
        StoreSource::File { file_source } => {
            write_u8(out, 4);
            write_file_source(out, file_source);
            proof {
                assert(out@ =~= old(out)@ + e_store_source(v@));
            }
        },
        StoreSource::Viewer => {
            write_u8(out, 5);
        },
        StoreSource::Other(s) => {
            write_u8(out, 6);
            write_string(out, s.as_str());
            proof {
                assert(out@ =~= old(out)@ + e_store_source(v@));
            }
        },
    }
}

pub proof fn lemma_read_store_source(b: Seq<u8>, i: int, v: StoreSourceView)
    requires
        0 <= i,
        wf_store_source(v),
        i + e_store_source(v).len() <= b.len(),
        b.subrange(i, i + e_store_source(v).len()) == e_store_source(v),
    ensures
        p_store_source(b, i) == Ok::<(StoreSourceView, int), CodecError>(
            (v, i + e_store_source(v).len()),
        ),
{
    match v {
        StoreSourceView::Unknown => {
            lemma_read_u8(b, i, 0);
        },
        StoreSourceView::CSdk => {
            lemma_read_u8(b, i, 1);
        },
        StoreSourceView::PythonSdk(py) => {
            lemma_split2(b, i, e_u8(2), e_python_version(py));
            lemma_read_u8(b, i, 2);
            lemma_read_python_version(b, i + 1, py);
        },
        StoreSourceView::RustSdk { rustc_version, llvm_version } => {
            let er = e_string(rustc_version);
            let el = e_string(llvm_version);
            lemma_split2(b, i, e_u8(3), er + el);
            lemma_split2(b, i + 1, er, el);
            lemma_read_u8(b, i, 3);
            lemma_read_string(b, i + 1, rustc_version);
            lemma_read_string(b, i + 1 + er.len(), llvm_version);
        },
        StoreSourceView::File { file_source } => {
            lemma_split2(b, i, e_u8(4), e_file_source(file_source));
            lemma_read_u8(b, i, 4);
            lemma_read_file_source(b, i + 1, file_source);
        },
        StoreSourceView::Viewer => {
            lemma_read_u8(b, i, 5);
        },
        StoreSourceView::Other(s) => {
            lemma_split2(b, i, e_u8(6), e_string(s));
            lemma_read_u8(b, i, 6);
            lemma_read_string(b, i + 1, s);
        },
    }
}

// --------------------------------------------------------- StoreInfo

/// A store info as it comes off the wire: the stream version is not part
/// of the payload, so it starts out absent and is filled in by the
/// decoder from the stream header.
pub open spec fn clear_version_info(v: StoreInfoView) -> StoreInfoView {
    StoreInfoView { store_version: None, ..v }
}

pub open spec fn p_store_info(b: Seq<u8>, i: int) -> Result<(StoreInfoView, int), CodecError> {
    match p_string(b, i) {
        Ok((application_id, j)) => match p_store_id(b, j) {
            Ok((store_id, k)) => match p_opt_store_id(b, k) {
                Ok((cloned_from, l)) => match p_store_source(b, l) {
                    Ok((store_source, m)) => Ok(
                        (
                            StoreInfoView {
                                application_id,
                                store_id,
                                cloned_from,
                                store_source,
                                store_version: None,
                            },
                            m,
                        ),
                    ),
                    Err(e) => Err(e),
                },
                Err(e) => Err(e),
            },
            Err(e) => Err(e),
        },
        Err(e) => Err(e),
    }
}

pub open spec fn e_store_info(v: StoreInfoView) -> Seq<u8> {
    e_string(v.application_id) + (e_store_id(v.store_id) + (e_opt_store_id(v.cloned_from)
        + e_store_source(v.store_source)))
}

pub open spec fn wf_store_info(v: StoreInfoView) -> bool {
    &&& v.application_id.len() < u64_bound()
    &&& wf_store_id(v.store_id)
    &&& wf_opt_store_id(v.cloned_from)
    &&& wf_store_source(v.store_source)
}

pub fn read_store_info(b: &[u8], at: usize) -> (r: Result<(StoreInfo, usize), CodecError>)
    ensures
        r matches Ok(p) ==> p_store_info(b@, at as int) == Ok::<(StoreInfoView, int), CodecError>(
            (p.0@, p.1 as int),
        ) && at < p.1 <= b@.len(),
        r matches Err(e) ==> p_store_info(b@, at as int) == Err::<
            (StoreInfoView, int),
            CodecError,
        >(e),
{
    let (application_id, j) = match read_string(b, at) {
        Ok(p) => p,
        Err(e) => {
            return Err(e);
        },
    };
    let (store_id, k) = match read_store_id(b, j) {
        Ok(p) => p,
        Err(e) => {
            return Err(e);
        },
    };
    let (cloned_from, l) = match read_opt_store_id(b, k) {
        Ok(p) => p,
        Err(e) => {
            return Err(e);
        },
    };
    let (store_source, m) = match read_store_source(b, l) {
        Ok(p) => p,
        Err(e) => {
            return Err(e);
        },
    };
    let info = StoreInfo {
        application_id: ApplicationId(application_id),
        store_id,
        cloned_from,
        store_source,
        store_version: None,
    };
    proof {
        assert(p_store_info(b@, at as int) matches Ok(p) && info@ =~= p.0);
    }
    Ok((info, m))
}

pub fn write_store_info(out: &mut Vec<u8>, v: &StoreInfo)
    ensures
        final(out)@ == old(out)@ + e_store_info(v@),
{
    write_string(out, v.application_id.as_str());
    write_store_id(out, &v.store_id);
    write_opt_store_id(out, &v.cloned_from);
    write_store_source(out, &v.store_source);
    proof {
        assert(out@ =~= old(out)@ + e_store_info(v@));
    }
}

pub proof fn lemma_read_store_info(b: Seq<u8>, i: int, v: StoreInfoView)
    requires
        0 <= i,
        wf_store_info(v),
        i + e_store_info(v).len() <= b.len(),
        b.subrange(i, i + e_store_info(v).len()) == e_store_info(v),
    ensures
        p_store_info(b, i) == Ok::<(StoreInfoView, int), CodecError>(
            (clear_version_info(v), i + e_store_info(v).len()),
        ),
{
    let ea = e_string(v.application_id);
    let es = e_store_id(v.store_id);
    let ec = e_opt_store_id(v.cloned_from);
    let eo = e_store_source(v.store_source);
    lemma_split2(b, i, ea, es + (ec + eo));
    lemma_split2(b, i + ea.len(), es, ec + eo);
    lemma_split2(b, i + ea.len() + es.len(), ec, eo);
    lemma_read_string(b, i, v.application_id);
    lemma_read_store_id(b, i + ea.len(), v.store_id);
    lemma_read_opt_store_id(b, i + ea.len() + es.len(), v.cloned_from);
    lemma_read_store_source(b, i + ea.len() + es.len() + ec.len(), v.store_source);
    assert(p_store_info(b, i) matches Ok(p) && p.0 =~= clear_version_info(v));
}

// ------------------------------------------------------ SetStoreInfo

pub open spec fn clear_version(v: SetStoreInfoView) -> SetStoreInfoView {
    SetStoreInfoView { info: clear_version_info(v.info), ..v }
}

pub open spec fn p_set_store_info(b: Seq<u8>, i: int) -> Result<
    (SetStoreInfoView, int),
    CodecError,
> {
    match p_tuid(b, i) {
        Ok((row_id, j)) => match p_store_info(b, j) {
            Ok((info, k)) => Ok((SetStoreInfoView { row_id, info }, k)),
            Err(e) => Err(e),
        },
        Err(e) => Err(e),
    }
}

pub open spec fn e_set_store_info(v: SetStoreInfoView) -> Seq<u8> {
    e_tuid(v.row_id) + e_store_info(v.info)
}

pub open spec fn wf_set_store_info(v: SetStoreInfoView) -> bool {
    wf_store_info(v.info)
}

pub fn read_set_store_info(b: &[u8], at: usize) -> (r: Result<(SetStoreInfo, usize), CodecError>)
    ensures
        r matches Ok(p) ==> p_set_store_info(b@, at as int) == Ok::<
            (SetStoreInfoView, int),
            CodecError,
        >((p.0@, p.1 as int)) && at < p.1 <= b@.len(),
        r matches Err(e) ==> p_set_store_info(b@, at as int) == Err::<
            (SetStoreInfoView, int),
            CodecError,
        >(e),
{
    let (row_id, j) = match read_tuid(b, at) {
        Ok(p) => p,
        Err(e) => {
            return Err(e);
        },
    };
    let (info, k) = match read_store_info(b, j) {
        Ok(p) => p,
        Err(e) => {
            return Err(e);
        },
    };
    Ok((SetStoreInfo { row_id, info }, k))
}

pub fn write_set_store_info(out: &mut Vec<u8>, v: &SetStoreInfo)
    ensures
        final(out)@ == old(out)@ + e_set_store_info(v@),
{
    write_tuid(out, &v.row_id);
    write_store_info(out, &v.info);
    proof {
        assert(out@ =~= old(out)@ + e_set_store_info(v@));
    }
}

pub proof fn lemma_read_set_store_info(b: Seq<u8>, i: int, v: SetStoreInfoView)
    requires
        0 <= i,
        wf_set_store_info(v),
        i + e_set_store_info(v).len() <= b.len(),
        b.subrange(i, i + e_set_store_info(v).len()) == e_set_store_info(v),
    ensures
        p_set_store_info(b, i) == Ok::<(SetStoreInfoView, int), CodecError>(
            (clear_version(v), i + e_set_store_info(v).len()),
        ),
{
    let et = e_tuid(v.row_id);
    lemma_split2(b, i, et, e_store_info(v.info));
    lemma_read_tuid(b, i, v.row_id);
    lemma_read_store_info(b, i + et.len(), v.info);
    assert(p_set_store_info(b, i) matches Ok(p) && p.0 =~= clear_version(v));
}

} // verus!
