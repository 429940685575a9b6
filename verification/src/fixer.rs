//! The patcher: locates a fixed 8-byte corruption signature in the leading
//! window of a replay file's bytes and rewrites it in place with the known
//! replacement of the same length.

use crate::paths::{
    ext_dot, name_start, spec_contains, spec_ext_dot, spec_file_name, spec_name_start,
    spec_stem_end, str_contains, str_eq,
};
use vstd::prelude::*;

verus! {

/// Why a file could not be fixed.
#[derive(Clone, Copy, Debug, PartialEq, Eq, Structural)]
pub enum FixError {
    /// The file does not carry the replay extension; rejected before any
    /// file is opened.
    InvalidFormat,
    /// The signature is absent from the scan window; the file is presumed
    /// healthy, and no output is produced.
    PatternNotFound,
    /// The file could not be opened, read, created or written.
    IoFailure,
    /// At least one file of a batch could not be fixed.
    BatchFailed,
}

/// What fixing one file produced.
#[derive(Debug, PartialEq, Eq)]
pub enum FixOutcome {
    /// The file name already carries the fixed marker; nothing was done.
    AlreadyFixed,
    /// The patched copy to write, and the sibling path to write it to.
    Fixed { output_path: String, output_data: Vec<u8> },
}

/// Length of both the search signature and its replacement.
pub open spec fn signature_len() -> int {
    8
}

/// Only the first 128 bytes of a file are searched for the signature.
pub open spec fn scan_limit() -> int {
    128
}

/// The 8-byte pattern that identifies the known corruption.
pub open spec fn spec_search_signature() -> Seq<u8> {
    seq![0x09u8, 0x00u8, 0x04u8, 0x09u8, 0x00u8, 0x06u8, 0x09u8, 0x00u8]
}

/// The 8-byte pattern written over the corruption; same length, no resize.
pub open spec fn spec_target_signature() -> Seq<u8> {
    seq![0x09u8, 0x0Au8, 0x04u8, 0x09u8, 0x00u8, 0x06u8, 0x09u8, 0x1Eu8]
}

/// The corruption signature as an owned byte vector.
pub fn search_signature() -> (r: Vec<u8>)
    ensures
        r@ == spec_search_signature(),
{
    let mut v: Vec<u8> = Vec::new();
    v.push(0x09);
    v.push(0x00);
    v.push(0x04);
    v.push(0x09);
    v.push(0x00);
    v.push(0x06);
    v.push(0x09);
    v.push(0x00);
    proof {
        assert(v@ =~= spec_search_signature());
    }
    v
}

/// The replacement signature as an owned byte vector.
pub fn target_signature() -> (r: Vec<u8>)
    ensures
        r@ == spec_target_signature(),
{
    let mut v: Vec<u8> = Vec::new();
    v.push(0x09);
    v.push(0x0A);
    v.push(0x04);
    v.push(0x09);
    v.push(0x00);
    v.push(0x06);
    v.push(0x09);
    v.push(0x1E);
    proof {
        assert(v@ =~= spec_target_signature());
    }
    v
}

/// The search pattern occurs in `data` starting at index `i`.
pub open spec fn matches_at(data: Seq<u8>, search: Seq<u8>, i: int) -> bool {
    &&& 0 <= i
    &&& i + search.len() <= data.len()
    &&& data.subrange(i, i + search.len()) == search
}

/// How far the scan may reach into `data`: the whole buffer, or the first
/// 128 bytes if the buffer is longer.
pub open spec fn spec_scan_window(data: Seq<u8>) -> int {
    if data.len() <= scan_limit() {
        data.len() as int
    } else {
        scan_limit()
    }
}

/// An occurrence of `search` lies wholly inside the scan window of `data`
/// and starts at `i`.
pub open spec fn matches_in_window(data: Seq<u8>, search: Seq<u8>, i: int) -> bool {
    &&& matches_at(data, search, i)
    &&& i + search.len() <= spec_scan_window(data)
}

/// Offset of the first occurrence of `search` wholly inside the scan window
/// of `data`, if there is one.
///
/// A window shorter than `search` holds no occurrence, so the result is
/// `None` for such buffers.
pub fn find_bytes_offset(data: &[u8], search: &[u8]) -> (r: Option<usize>)
    requires
        search@.len() >= 1,
    ensures
        match r {
            Some(i) => {
                &&& matches_in_window(data@, search@, i as int)
                &&& forall|j: int| 0 <= j < i ==> !matches_in_window(data@, search@, j)
            },
            None => forall|j: int| !matches_in_window(data@, search@, j),
        },
{
    let data_len = if data.len() <= 128 {
        data.len()
    } else {
        128
    };
    if data_len < search.len() {
        return None;
    }
    let mut i: usize = 0;
    while i <= data_len - search.len()
        invariant
            data_len == spec_scan_window(data@),
            search@.len() >= 1,
            search@.len() <= data_len <= data@.len(),
            i <= data_len - search@.len() + 1,
            forall|j: int| 0 <= j < i ==> !matches_in_window(data@, search@, j),
        decreases data_len - i,
    {
        let mut k: usize = 0;
        let mut all_eq = true;
        while k < search.len()
            invariant
                search@.len() >= 1,
                i + search@.len() <= data_len <= data@.len(),
                k <= search@.len(),
                all_eq <==> data@.subrange(i as int, i + k as int) =~= search@.subrange(
                    0,
                    k as int,
                ),
            decreases search@.len() - k,
        {
            if data[i + k] != search[k] {
                proof {
                    assert(data@.subrange(i as int, i + k + 1 as int)[k as int] != search@.subrange(
                        0,
                        k + 1 as int,
                    )[k as int]);
                }
                all_eq = false;
                k = search.len();
            } else {
                proof {
                    assert(data@.subrange(i as int, i + k + 1 as int) =~= data@.subrange(
                        i as int,
                        i + k as int,
                    ).push(data@[i + k as int]));
                    assert(search@.subrange(0, k + 1 as int) =~= search@.subrange(0, k as int).push(
                        search@[k as int],
                    ));
                }
                k = k + 1;
            }
        }
        if all_eq {
            proof {
                assert(data@.subrange(i as int, i + search@.len()) =~= search@.subrange(
                    0,
                    search@.len() as int,
                ));
                assert(search@.subrange(0, search@.len() as int) =~= search@);
            }
            return Some(i);
        }
        proof {
            assert(!matches_in_window(data@, search@, i as int)) by {
                assert(data@.subrange(i as int, i + search@.len()) != search@);
            }
        }
        i = i + 1;
    }
    proof {
        assert(forall|j: int| matches_in_window(data@, search@, j) ==> 0 <= j <= data_len
            - search@.len());
    }
    None
}

/// The extension a candidate file must carry.
pub open spec fn replay_extension() -> Seq<char> {
    "SC2Replay"@
}

/// The marker in a file name that says the file is itself a fixed copy.
pub open spec fn fixed_marker() -> Seq<char> {
    "-FIXED"@
}

/// What is appended to the stem to name the fixed copy.
pub open spec fn fixed_suffix() -> Seq<char> {
    "-FIXED.SC2Replay"@
}

/// The file name of `p` carries the fixed marker.
pub open spec fn spec_already_fixed(p: Seq<char>) -> bool {
    spec_contains(spec_file_name(p), fixed_marker())
}

/// The file name of `p` has exactly the replay extension.
pub open spec fn spec_has_replay_ext(p: Seq<char>) -> bool {
    let d = spec_ext_dot(p, spec_name_start(p));
    &&& d >= 0
    &&& p.subrange(d + 1, p.len() as int) == replay_extension()
}

/// The path of the fixed copy: the stem of `p` with the fixed suffix.
pub open spec fn spec_output_path(p: Seq<char>) -> Seq<char> {
    p.subrange(0, spec_stem_end(p)) + fixed_suffix()
}

/// `data` with the 8 bytes at `o` replaced by the replacement signature;
/// everything else, and the length, unchanged.
pub open spec fn spec_patched(data: Seq<u8>, o: int) -> Seq<u8> {
    data.subrange(0, o) + spec_target_signature() + data.subrange(
        o + signature_len(),
        data.len() as int,
    )
}

/// `o` is the first occurrence of the search signature inside the scan
/// window of `data`.
pub open spec fn is_first_match(data: Seq<u8>, o: int) -> bool {
    &&& matches_in_window(data, spec_search_signature(), o)
    &&& forall|j: int| 0 <= j < o ==> !matches_in_window(data, spec_search_signature(), j)
}

/// The file named by `p` is marked as already fixed.
pub fn contains_fixed_marker(p: &str) -> (r: bool)
    ensures
        r == spec_already_fixed(p@),
{
    let k = name_start(p);
    let len = p.unicode_len();
    let name = p.substring_char(k, len);
    str_contains(name, "-FIXED")
}

/// The file named by `p` carries the replay extension.
pub fn has_replay_extension(p: &str) -> (r: bool)
    ensures
        r == spec_has_replay_ext(p@),
{
    let k = name_start(p);
    match ext_dot(p, k) {
        None => false,
        Some(d) => {
            let len = p.unicode_len();
            let ext = p.substring_char(d + 1, len);
            str_eq(ext, "SC2Replay")
        },
    }
}

/// Path of the fixed sibling copy: the stem of `p` followed by the fixed
/// suffix, in the same directory.
pub fn generate_output_path(p: &str) -> (r: String)
    ensures
        r@ == spec_output_path(p@),
{
    let k = name_start(p);
    let len = p.unicode_len();
    let stem_end = match ext_dot(p, k) {
        Some(d) => d,
        None => len,
    };
    let stem = p.substring_char(0, stem_end);
    String::from_str(stem).concat("-FIXED.SC2Replay")
}

/// Overwrite the 8 bytes of `data` at `offset` with the replacement
/// signature. No byte outside `[offset, offset + 8)` moves or changes.
pub fn patch_data(data: &mut Vec<u8>, offset: usize)
    requires
        offset + signature_len() <= old(data)@.len(),
    ensures
        final(data)@ == spec_patched(old(data)@, offset as int),
{
    let replacement = target_signature();
    let n = data.len();
    let mut i: usize = 0;
    while i < 8
        invariant
            i <= 8,
            replacement@ == spec_target_signature(),
            offset + 8 <= n,
            n == data@.len(),
            data@.len() == old(data)@.len(),
            forall|j: int| 0 <= j < offset ==> data@[j] == old(data)@[j],
            forall|j: int| 0 <= j < i ==> data@[offset + j] == spec_target_signature()[j],
            forall|j: int| offset + i <= j < data@.len() ==> data@[j] == old(data)@[j],
        decreases 8 - i,
    {
        let b = replacement[i];
        data.set(offset + i, b);
        i = i + 1;
    }
    proof {
        assert(data@ =~= spec_patched(old(data)@, offset as int));
    }
}

/// Decide and perform the fix for one file, given its path and its bytes.
///
/// A file whose name carries the fixed marker is skipped with success and
/// no output. A file without the replay extension is rejected. Otherwise
/// the first occurrence of the search signature inside the scan window is
/// replaced in a copy of the bytes, and the copy is returned together with
/// the sibling path it belongs under. The original bytes are never changed.
pub fn fix_single_file(path: &str, data: &Vec<u8>) -> (r: Result<FixOutcome, FixError>)
    ensures
        spec_already_fixed(path@) ==> r == Ok::<FixOutcome, FixError>(FixOutcome::AlreadyFixed),
        !spec_already_fixed(path@) && !spec_has_replay_ext(path@) ==> r == Err::<
            FixOutcome,
            FixError,
        >(FixError::InvalidFormat),
        !spec_already_fixed(path@) && spec_has_replay_ext(path@) && (forall|o: int|
            !matches_in_window(data@, spec_search_signature(), o)) ==> r == Err::<
            FixOutcome,
            FixError,
        >(FixError::PatternNotFound),
        !spec_already_fixed(path@) && spec_has_replay_ext(path@) && (exists|o: int|
            matches_in_window(data@, spec_search_signature(), o)) ==> match r {
            Ok(FixOutcome::Fixed { output_path, output_data }) => {
                &&& output_path@ == spec_output_path(path@)
                &&& exists|o: int|
                    #[trigger] is_first_match(data@, o) && output_data@ == spec_patched(data@, o)
            },
            _ => false,
        },
{
    if contains_fixed_marker(path) {
        return Ok(FixOutcome::AlreadyFixed);
    }
    if !has_replay_extension(path) {
        return Err(FixError::InvalidFormat);
    }
    let search = search_signature();
    match find_bytes_offset(data.as_slice(), search.as_slice()) {
        None => Err(FixError::PatternNotFound),
        Some(offset) => {
            let mut out: Vec<u8> = Vec::new();
            let mut i: usize = 0;
            let n = data.len();
            while i < n
                invariant
                    i <= n,
                    n == data@.len(),
                    out@ =~= data@.subrange(0, i as int),
                decreases n - i,
            {
                let b = data[i];
                out.push(b);
                i = i + 1;
            }
            proof {
                assert(out@ =~= data@);
            }
            patch_data(&mut out, offset);
            let output_path = generate_output_path(path);
            proof {
                assert(is_first_match(data@, offset as int));
            }
            Ok(FixOutcome::Fixed { output_path, output_data: out })
        },
    }
}

/// One file of a directory as the caller read it: its path, and its bytes,
/// or `None` where the file could not be read.
pub struct FileRecord {
    pub path: String,
    pub data: Option<Vec<u8>>,
}

/// One directory as the caller listed it: its path, whether it exists, and
/// its files at depth one.
pub struct DirListing {
    pub path: String,
    pub exists: bool,
    pub files: Vec<FileRecord>,
}

/// A fixed copy to be written: the sibling path and the patched bytes.
pub struct FixedFile {
    pub path: String,
    pub data: Vec<u8>,
}

/// An attempted record fails iff it is not already fixed and either could
/// not be read or holds no signature in its scan window.
pub open spec fn spec_file_fails(f: FileRecord) -> bool {
    &&& spec_has_replay_ext(f.path@)
    &&& !spec_already_fixed(f.path@)
    &&& match f.data {
        Some(d) => forall|o: int| !matches_in_window(d@, spec_search_signature(), o),
        None => true,
    }
}

/// An attempted record yields a fixed copy iff it is not already fixed,
/// was read, and holds the signature in its scan window.
pub open spec fn spec_file_fixed(f: FileRecord) -> bool {
    &&& spec_has_replay_ext(f.path@)
    &&& !spec_already_fixed(f.path@)
    &&& match f.data {
        Some(d) => exists|o: int| matches_in_window(d@, spec_search_signature(), o),
        None => false,
    }
}

/// The offset of the first signature occurrence in `data`.
pub open spec fn spec_first_match_offset(data: Seq<u8>) -> int {
    choose|o: int| is_first_match(data, o)
}

/// There is at most one first occurrence.
pub proof fn lemma_first_match_unique(data: Seq<u8>, o1: int, o2: int)
    requires
        is_first_match(data, o1),
        is_first_match(data, o2),
    ensures
        o1 == o2,
{
}

/// The patched buffer has the same length as the original; it carries the
/// replacement signature at the match offset and the original byte
/// everywhere else.
pub proof fn lemma_patched_shape(data: Seq<u8>, o: int)
    requires
        0 <= o,
        o + signature_len() <= data.len(),
    ensures
        spec_patched(data, o).len() == data.len(),
        forall|j: int| 0 <= j < o ==> spec_patched(data, o)[j] == data[j],
        forall|j: int|
            o <= j < o + signature_len() ==> spec_patched(data, o)[j] == spec_target_signature()[j
                - o],
        forall|j: int| o + signature_len() <= j < data.len() ==> spec_patched(data, o)[j]
            == data[j],
{
}

/// The fixed copy a record yields: its sibling path and its patched bytes.
pub open spec fn spec_fixed_pair(f: FileRecord) -> (Seq<char>, Seq<u8>) {
    (
        spec_output_path(f.path@),
        match f.data {
            Some(d) => spec_patched(d@, spec_first_match_offset(d@)),
            None => Seq::<u8>::empty(),
        },
    )
}

/// The fixed copies a directory's records yield, in record order.
pub open spec fn spec_dir_outputs(files: Seq<FileRecord>) -> Seq<(Seq<char>, Seq<u8>)>
    decreases files.len(),
{
    if files.len() == 0 {
        Seq::empty()
    } else {
        let rest = spec_dir_outputs(files.drop_last());
        if spec_file_fixed(files.last()) {
            rest.push(spec_fixed_pair(files.last()))
        } else {
            rest
        }
    }
}

/// The fixed copies a list of directories yields: those of each existing
/// directory, in directory order.
pub open spec fn spec_all_outputs(dirs: Seq<DirListing>) -> Seq<(Seq<char>, Seq<u8>)>
    decreases dirs.len(),
{
    if dirs.len() == 0 {
        Seq::empty()
    } else {
        let rest = spec_all_outputs(dirs.drop_last());
        if dirs.last().exists {
            rest + spec_dir_outputs(dirs.last().files@)
        } else {
            rest
        }
    }
}

/// View of a vector of fixed copies as path/bytes pairs.
pub open spec fn spec_outputs_view(v: Seq<FixedFile>) -> Seq<(Seq<char>, Seq<u8>)> {
    v.map_values(|ff: FixedFile| (ff.path@, ff.data@))
}

/// An existing directory fails iff one of its records fails.
pub open spec fn spec_dir_fails(d: DirListing) -> bool {
    &&& d.exists
    &&& exists|i: int| 0 <= i < d.files@.len() && spec_file_fails(d.files@[i])
}

/// Fix one record: append its fixed copy to `outputs` if it yields one,
/// append one log line for every attempted record, and report whether the
/// record failed.
fn process_record(f: &FileRecord, outputs: &mut Vec<FixedFile>, log: &mut Vec<String>) -> (failed:
    bool)
    ensures
        failed == spec_file_fails(*f),
        spec_file_fixed(*f) ==> spec_outputs_view(final(outputs)@) == spec_outputs_view(
            old(outputs)@,
        ).push(spec_fixed_pair(*f)),
        !spec_file_fixed(*f) ==> final(outputs)@ == old(outputs)@,
        old(log)@.is_prefix_of(final(log)@),
{
    if !has_replay_extension(f.path.as_str()) {
        proof {
            assert(log@ =~= log@.subrange(0, log@.len() as int));
        }
        return false;
    }
    let failed: bool;
    match &f.data {
        None => {
            if contains_fixed_marker(f.path.as_str()) {
                log.push(String::from_str("[success] already fixed: ").concat(f.path.as_str()));
                failed = false;
            } else {
                log.push(String::from_str("[failure] could not read: ").concat(f.path.as_str()));
                failed = true;
            }
        },
        Some(d) => {
            match fix_single_file(f.path.as_str(), d) {
                Ok(FixOutcome::AlreadyFixed) => {
                    log.push(
                        String::from_str("[success] already fixed: ").concat(f.path.as_str()),
                    );
                    failed = false;
                },
                Ok(FixOutcome::Fixed { output_path, output_data }) => {
                    proof {
                        let o = choose|o: int|
                            #[trigger] is_first_match(d@, o) && output_data@ == spec_patched(d@, o);
                        assert(is_first_match(d@, spec_first_match_offset(d@)));
                        lemma_first_match_unique(d@, o, spec_first_match_offset(d@));
                    }
                    log.push(String::from_str("[success] fixed: ").concat(output_path.as_str()));
                    let ff = FixedFile { path: output_path, data: output_data };
                    outputs.push(ff);
                    proof {
                        assert(spec_outputs_view(outputs@) =~= spec_outputs_view(
                            old(outputs)@,
                        ).push(spec_fixed_pair(*f)));
                    }
                    failed = false;
                },
                Err(_) => {
                    log.push(
                        String::from_str("[failure] pattern not found: ").concat(f.path.as_str()),
                    );
                    failed = true;
                },
            }
        },
    }
    proof {
        assert(old(log)@.is_prefix_of(log@)) by {
            assert(old(log)@ =~= log@.subrange(0, old(log)@.len() as int));
        };
    }
    failed
}

proof fn lemma_prefix_trans(a: Seq<String>, b: Seq<String>, c: Seq<String>)
    requires
        a.is_prefix_of(b),
        b.is_prefix_of(c),
    ensures
        a.is_prefix_of(c),
{
    assert(a =~= c.subrange(0, a.len() as int));
}

/// Fix every matching file of one directory, continuing past individual
/// failures; the result is a failure iff the directory is missing or at
/// least one of its files failed. Returns the fixed copies to write.
pub fn batch_fix_dir(dir: &DirListing, log: &mut Vec<String>) -> (r: (
    Result<(), FixError>,
    Vec<FixedFile>,
))
    ensures
        !dir.exists ==> r.0 == Err::<(), FixError>(FixError::IoFailure) && r.1@.len() == 0,
        dir.exists && spec_dir_fails(*dir) ==> r.0 == Err::<(), FixError>(FixError::BatchFailed),
        dir.exists && !spec_dir_fails(*dir) ==> r.0 == Ok::<(), FixError>(()),
        dir.exists ==> spec_outputs_view(r.1@) == spec_dir_outputs(dir.files@),
        old(log)@.is_prefix_of(final(log)@),
{
    proof {
        assert(log@ =~= log@.subrange(0, log@.len() as int));
    }
    if !dir.exists {
        return (Err(FixError::IoFailure), Vec::new());
    }
    let mut outputs: Vec<FixedFile> = Vec::new();
    let mut any_failed = false;
    let n = dir.files.len();
    let mut i: usize = 0;
    proof {
        assert(spec_outputs_view(outputs@) =~= spec_dir_outputs(dir.files@.subrange(0, 0)));
    }
    while i < n
        invariant
            i <= n,
            n == dir.files@.len(),
            any_failed == exists|j: int| 0 <= j < i && spec_file_fails(dir.files@[j]),
            spec_outputs_view(outputs@) == spec_dir_outputs(dir.files@.subrange(0, i as int)),
            old(log)@.is_prefix_of(log@),
        decreases n - i,
    {
        let ghost log_before = log@;
        let failed = process_record(&dir.files[i], &mut outputs, log);
        proof {
            lemma_prefix_trans(old(log)@, log_before, log@);
            assert(dir.files@.subrange(0, i + 1 as int).drop_last() =~= dir.files@.subrange(
                0,
                i as int,
            ));
            assert(dir.files@.subrange(0, i + 1 as int).last() == dir.files@[i as int]);
            if spec_file_fixed(dir.files@[i as int]) {
                assert(spec_outputs_view(outputs@) =~= spec_dir_outputs(
                    dir.files@.subrange(0, i + 1 as int),
                ));
            } else {
                assert(spec_outputs_view(outputs@) =~= spec_dir_outputs(
                    dir.files@.subrange(0, i + 1 as int),
                ));
            }
        }
        any_failed = any_failed || failed;
        i = i + 1;
    }
    proof {
        assert(dir.files@.subrange(0, n as int) =~= dir.files@);
    }
    if any_failed {
        (Err(FixError::BatchFailed), outputs)
    } else {
        (Ok(()), outputs)
    }
}

/// Fix every matching file of every listed directory, skipping missing
/// directories and continuing past individual failures; the result is a
/// failure iff at least one existing directory had a failing file. Returns
/// all fixed copies to write.
pub fn batch_fix_dirs(dirs: &Vec<DirListing>, log: &mut Vec<String>) -> (r: (
    Result<(), FixError>,
    Vec<FixedFile>,
))
    ensures
        r.0 is Err <==> exists|i: int| 0 <= i < dirs@.len() && spec_dir_fails(dirs@[i]),
        r.0 is Err ==> r.0 == Err::<(), FixError>(FixError::BatchFailed),
        spec_outputs_view(r.1@) == spec_all_outputs(dirs@),
        old(log)@.is_prefix_of(final(log)@),
{
    proof {
        assert(log@ =~= log@.subrange(0, log@.len() as int));
    }
    let mut outputs: Vec<FixedFile> = Vec::new();
    let mut any_error = false;
    let n = dirs.len();
    let mut i: usize = 0;
    proof {
        assert(spec_outputs_view(outputs@) =~= spec_all_outputs(dirs@.subrange(0, 0)));
    }
    while i < n
        invariant
            i <= n,
            n == dirs@.len(),
            any_error == exists|j: int| 0 <= j < i && spec_dir_fails(dirs@[j]),
            spec_outputs_view(outputs@) == spec_all_outputs(dirs@.subrange(0, i as int)),
            old(log)@.is_prefix_of(log@),
        decreases n - i,
    {
        let ghost log_before = log@;
        let ghost outputs_before = outputs@;
        let dir = &dirs[i];
        if dir.exists {
            log.push(String::from_str("[batch] entering directory: ").concat(dir.path.as_str()));
            let ghost log_mid = log@;
            proof {
                assert(log_before.is_prefix_of(log@)) by {
                    assert(log_before =~= log@.subrange(0, log_before.len() as int));
                };
                lemma_prefix_trans(old(log)@, log_before, log@);
            }
            let (res, mut sub) = batch_fix_dir(dir, log);
            proof {
                lemma_prefix_trans(old(log)@, log_mid, log@);
            }
            outputs.append(&mut sub);
            if res.is_err() {
                any_error = true;
            }
        }
        proof {
            assert(dirs@.subrange(0, i + 1 as int).drop_last() =~= dirs@.subrange(0, i as int));
            assert(dirs@.subrange(0, i + 1 as int).last() == dirs@[i as int]);
            assert(spec_outputs_view(outputs@) =~= spec_all_outputs(
                dirs@.subrange(0, i + 1 as int),
            ));
        }
        i = i + 1;
    }
    proof {
        assert(dirs@.subrange(0, n as int) =~= dirs@);
    }
    if any_error {
        (Err(FixError::BatchFailed), outputs)
    } else {
        (Ok(()), outputs)
    }
}

} // verus!
