//! The archive index: parses a WAD container's directory once at open time,
//! answers case-insensitive name lookups, and serves exact byte spans of the
//! stored lumps.
//!
//! Container layout: a 12-byte header (4-byte tag `IWAD` or `PWAD`,
//! little-endian lump count, little-endian directory offset) followed
//! elsewhere in the file by one 16-byte directory record per lump
//! (little-endian offset, little-endian size, 8-byte name field).

use vstd::prelude::*;

use crate::ascii::{
    bytes_eq, is_prefix_of, starts_with_bytes, to_upper_bytes, trim_ascii_bytes, trim_bytes,
    upper_ascii_byte, upper_byte, upper_bytes, ascii_bytes_to_string,
};
use vstd::string::{StringExecFns, StringSliceAdditionalSpecFns};

verus! {

/// Failures of the archive index. Opening rejects a container whose tag is
/// not recognized; lookups report missing names; reads report spans that the
/// container cannot serve.
#[derive(Debug)]
pub enum WadError {
    /// The leading 4-byte tag is neither `IWAD` nor `PWAD`.
    NotAWad,
    /// No lump with the given name exists.
    LumpNotFound(String),
    /// The container ended before the requested bytes: a truncated header,
    /// a truncated directory, or a lump span past the end of the data.
    ShortRead,
    /// A lump index past the end of the directory.
    IndexOutOfRange,
}

impl WadError {
    /// A human-readable description of the failure.
    pub fn message(&self) -> (r: String)
        ensures
            self is NotAWad ==> r@ == "not a WAD file"@,
            self is ShortRead ==> r@ == "short read of container bytes"@,
            self is IndexOutOfRange ==> r@ == "lump index out of range"@,
            forall|n: String| *self == WadError::LumpNotFound(n) ==> r@ == "lump not found: "@ + n@,
    {
        match self {
            WadError::NotAWad => String::from_str("not a WAD file"),
            WadError::LumpNotFound(n) => {
                let s = String::from_str("lump not found: ");
                s.concat(n.as_str())
            },
            WadError::ShortRead => String::from_str("short read of container bytes"),
            WadError::IndexOutOfRange => String::from_str("lump index out of range"),
        }
    }
}

/// A WAD directory entry: a normalized 8-character-or-shorter upper-case
/// ASCII name, a byte offset into the container, and a byte length.
#[derive(Debug)]
pub struct Lump {
    /// Upper ASCII without trailing NULs.
    pub name: String,
    /// Offset from the start of the container.
    pub filepos: u32,
    /// Length in bytes.
    pub size: u32,
}

impl Clone for Lump {
    fn clone(&self) -> (r: Self)
        ensures
            r == *self,
    {
        Lump { name: self.name.clone(), filepos: self.filepos, size: self.size }
    }
}

/// The UTF-8 bytes of a lump name (for a well-formed lump these are plain
/// ASCII bytes, one per character).
pub open spec fn name_bytes(l: Lump) -> Seq<u8> {
    vstd::utf8::encode_utf8(l.name@)
}

/// A well-formed lump name is ASCII and already upper-cased, so lookups can
/// compare it directly against an upper-cased query.
pub open spec fn lump_wf(l: Lump) -> bool {
    &&& vstd::string::string_is_ascii(&l.name)
    &&& upper_bytes(name_bytes(l)) == name_bytes(l)
}

/// The lookup key of a query string: its UTF-8 bytes, upper-cased.
pub open spec fn lookup_key(q: Seq<char>) -> Seq<u8> {
    upper_bytes(vstd::utf8::encode_utf8(q))
}

/// Little-endian 16-bit value at position `i`.
pub open spec fn le16_at(d: Seq<u8>, i: int) -> u16 {
    (d[i] + 256 * d[i + 1]) as u16
}

/// Little-endian 32-bit value at position `i`.
pub open spec fn le32_at(d: Seq<u8>, i: int) -> u32 {
    (d[i] + 256 * d[i + 1] + 65536 * d[i + 2] + 16777216 * d[i + 3]) as u32
}

/// Read a little-endian 32-bit value from `d` at offset `at`.
pub fn read_u32(d: &[u8], at: usize) -> (r: u32)
    requires
        at + 4 <= d@.len(),
    ensures
        r == le32_at(d@, at as int),
{
    let b0 = d[at] as u32;
    let b1 = d[at + 1] as u32;
    let b2 = d[at + 2] as u32;
    let b3 = d[at + 3] as u32;
    b0 + 256 * b1 + 65536 * b2 + 16777216 * b3
}

/// The prefix of `s` before its first zero byte (all of `s` if none).
pub open spec fn trunc_at_nul(s: Seq<u8>) -> Seq<u8>
    decreases s.len(),
{
    if s.len() == 0 {
        s
    } else if s[0] == 0 {
        Seq::empty()
    } else {
        seq![s[0]] + trunc_at_nul(s.drop_first())
    }
}

/// Name normalization of one byte: ASCII is upper-cased; a byte outside the
/// ASCII range (never present in well-formed archives) becomes `?`.
pub open spec fn norm_byte(b: u8) -> u8 {
    if b >= 128 {
        63
    } else {
        upper_byte(b)
    }
}

/// Normalize a raw 8-byte name field: truncate at the first zero byte, then
/// normalize each remaining byte.
pub open spec fn norm_name(raw: Seq<u8>) -> Seq<u8> {
    trunc_at_nul(raw).map_values(|b: u8| norm_byte(b))
}

proof fn lemma_trunc_at_nul(s: Seq<u8>, i: int)
    requires
        0 <= i <= s.len(),
        forall|j: int| 0 <= j < i ==> s[j] != 0,
        i == s.len() || s[i] == 0,
    ensures
        trunc_at_nul(s) == s.take(i),
    decreases i,
{
    if i == 0 {
        if s.len() == 0 {
            assert(trunc_at_nul(s) =~= s.take(0));
        } else {
            assert(trunc_at_nul(s) =~= s.take(0));
        }
    } else {
        assert(s[0] != 0);
        lemma_trunc_at_nul(s.drop_first(), i - 1);
        assert(seq![s[0]] + s.drop_first().take(i - 1) =~= s.take(i));
    }
}

/// Normalized names contain only ASCII bytes, and upper-casing them again
/// changes nothing.
pub proof fn lemma_norm_name_upper(raw: Seq<u8>)
    ensures
        upper_bytes(norm_name(raw)) == norm_name(raw),
        forall|j: int| 0 <= j < norm_name(raw).len() ==> norm_name(raw)[j] < 128,
{
    assert(upper_bytes(norm_name(raw)) =~= norm_name(raw));
}

/// Convert a raw name field to an upper ASCII `String` without trailing NULs.
pub fn bytes_to_lump_name(b: &[u8]) -> (r: String)
    ensures
        vstd::utf8::encode_utf8(r@) == norm_name(b@),
        vstd::string::string_is_ascii(&r),
{
    let mut out: Vec<u8> = Vec::new();
    let mut i: usize = 0;
    while i < b.len() && b[i] != 0
        invariant
            i <= b@.len(),
            forall|j: int| 0 <= j < i ==> b@[j] != 0,
            out@ == b@.take(i as int).map_values(|x: u8| norm_byte(x)),
            forall|j: int| 0 <= j < out@.len() ==> out@[j] < 128,
        decreases b@.len() - i,
    {
        let nb = if b[i] >= 128 {
            63
        } else {
            upper_ascii_byte(b[i])
        };
        out.push(nb);
        i = i + 1;
        assert(out@ =~= b@.take(i as int).map_values(|x: u8| norm_byte(x)));
    }
    proof {
        lemma_trunc_at_nul(b@, i as int);
    }
    ascii_bytes_to_string(out)
}

/// The `IWAD` tag bytes.
pub open spec fn iwad_tag() -> Seq<u8> {
    seq![73u8, 87u8, 65u8, 68u8]
}

/// The `PWAD` tag bytes.
pub open spec fn pwad_tag() -> Seq<u8> {
    seq![80u8, 87u8, 65u8, 68u8]
}

/// The container begins with one of the two recognized 4-byte tags.
pub open spec fn wad_tag_ok(d: Seq<u8>) -> bool {
    d.len() >= 12 && (d.take(4) == iwad_tag() || d.take(4) == pwad_tag())
}

/// The declared lump count.
pub open spec fn wad_lump_count(d: Seq<u8>) -> u32 {
    le32_at(d, 4)
}

/// The declared directory offset.
pub open spec fn wad_dir_offset(d: Seq<u8>) -> u32 {
    le32_at(d, 8)
}

/// The whole declared directory lies inside the container.
pub open spec fn wad_dir_ok(d: Seq<u8>) -> bool {
    wad_dir_offset(d) + 16 * wad_lump_count(d) <= d.len()
}

/// The declared offset of the `k`-th lump.
pub open spec fn dir_filepos(d: Seq<u8>, k: int) -> u32 {
    le32_at(d, wad_dir_offset(d) + 16 * k)
}

/// The declared size of the `k`-th lump.
pub open spec fn dir_size(d: Seq<u8>, k: int) -> u32 {
    le32_at(d, wad_dir_offset(d) + 16 * k + 4)
}

/// The normalized name of the `k`-th lump.
pub open spec fn dir_name(d: Seq<u8>, k: int) -> Seq<u8> {
    let p = wad_dir_offset(d) + 16 * k;
    norm_name(d.subrange(p + 8, p + 16))
}

/// Lump `l` holds exactly what the `k`-th directory record of `d` declares.
pub open spec fn lump_matches_dir(d: Seq<u8>, k: int, l: Lump) -> bool {
    &&& l.filepos == dir_filepos(d, k)
    &&& l.size == dir_size(d, k)
    &&& name_bytes(l) == dir_name(d, k)
}

/// The position of the first lump at or after `from` whose name equals `key`.
pub open spec fn first_match(lumps: Seq<Lump>, key: Seq<u8>, from: int) -> Option<int>
    decreases lumps.len() - from,
{
    if from < 0 || from >= lumps.len() {
        None
    } else if name_bytes(lumps[from]) == key {
        Some(from)
    } else {
        first_match(lumps, key, from + 1)
    }
}

/// The position of the first directory record at or after `from` whose
/// normalized name equals `key`.
pub open spec fn first_dir_match(d: Seq<u8>, key: Seq<u8>, from: int) -> Option<int>
    decreases wad_lump_count(d) - from,
{
    if from < 0 || from >= wad_lump_count(d) {
        None
    } else if dir_name(d, from) == key {
        Some(from)
    } else {
        first_dir_match(d, key, from + 1)
    }
}

/// What `first_match` returns: the least matching position at or after
/// `from`, or nothing when no position at or after `from` matches.
pub proof fn lemma_first_match(lumps: Seq<Lump>, key: Seq<u8>, from: int)
    requires
        0 <= from,
    ensures
        match first_match(lumps, key, from) {
            Some(i) => from <= i < lumps.len() && name_bytes(lumps[i]) == key && (forall|j: int|
                from <= j < i ==> name_bytes(#[trigger] lumps[j]) != key),
            None => forall|j: int|
                from <= j < lumps.len() ==> name_bytes(#[trigger] lumps[j]) != key,
        },
    decreases lumps.len() - from,
{
    if from < lumps.len() && name_bytes(lumps[from]) != key {
        lemma_first_match(lumps, key, from + 1);
    }
}

/// When every lump mirrors its directory record, scanning the lump list and
/// scanning the directory find the same first match.
proof fn lemma_first_match_dir(lumps: Seq<Lump>, d: Seq<u8>, key: Seq<u8>, from: int)
    requires
        0 <= from,
        lumps.len() == wad_lump_count(d),
        forall|k: int| 0 <= k < lumps.len() ==> lump_matches_dir(d, k, #[trigger] lumps[k]),
    ensures
        first_match(lumps, key, from) == first_dir_match(d, key, from),
    decreases lumps.len() - from,
{
    if from < lumps.len() && name_bytes(lumps[from]) != key {
        lemma_first_match_dir(lumps, d, key, from + 1);
    }
}

/// Parsed WAD container: the raw bytes plus the directory entries with
/// normalized names, in file order. Name lookups are case-insensitive.
/// Multiple lumps can share the same name, so lookups return all positions.
#[derive(Debug)]
pub struct Wad {
    data: Vec<u8>,
    lumps: Vec<Lump>,
}

impl Wad {
    /// The container's raw bytes.
    pub closed spec fn spec_data(&self) -> Seq<u8> {
        self.data@
    }

    /// The parsed directory, in file order.
    pub closed spec fn spec_lumps(&self) -> Seq<Lump> {
        self.lumps@
    }

    /// Every parsed lump carries a normalized (upper ASCII) name.
    pub open spec fn wf(&self) -> bool {
        forall|i: int| 0 <= i < self.spec_lumps().len() ==> lump_wf(#[trigger] self.spec_lumps()[i])
    }

    /// Parse an IWAD or PWAD from its raw bytes. A malformed tag is fatal and
    /// yields no handle; the directory is parsed in full, so the returned
    /// index is complete and never mutated afterwards.
    pub fn open(data: Vec<u8>) -> (r: Result<Wad, WadError>)
        ensures
            data@.len() < 12 ==> (r matches Err(e) && e is ShortRead),
            data@.len() >= 12 && !wad_tag_ok(data@) ==> (r matches Err(e) && e is NotAWad),
            wad_tag_ok(data@) && !wad_dir_ok(data@) ==> (r matches Err(e) && e is ShortRead),
            wad_tag_ok(data@) && wad_dir_ok(data@) ==> (r matches Ok(w) && {
                &&& w.wf()
                &&& w.spec_data() == data@
                &&& w.spec_lumps().len() == wad_lump_count(data@)
                &&& forall|k: int|
                    0 <= k < wad_lump_count(data@) ==> lump_matches_dir(
                        data@,
                        k,
                        #[trigger] w.spec_lumps()[k],
                    )
            }),
    {
        if data.len() < 12 {
            return Err(WadError::ShortRead);
        }
        let d = data.as_slice();
        let tag_iwad = d[0] == 73 && d[1] == 87 && d[2] == 65 && d[3] == 68;
        let tag_pwad = d[0] == 80 && d[1] == 87 && d[2] == 65 && d[3] == 68;
        proof {
            if data@[0] == 73 && data@[1] == 87 && data@[2] == 65 && data@[3] == 68 {
                assert(data@.take(4) =~= iwad_tag());
            }
            if data@[0] == 80 && data@[1] == 87 && data@[2] == 65 && data@[3] == 68 {
                assert(data@.take(4) =~= pwad_tag());
            }
            if data@.take(4) == iwad_tag() || data@.take(4) == pwad_tag() {
                assert(data@[0] == data@.take(4)[0]);
                assert(data@[1] == data@.take(4)[1]);
                assert(data@[2] == data@.take(4)[2]);
                assert(data@[3] == data@.take(4)[3]);
            }
        }
        if !tag_iwad && !tag_pwad {
            return Err(WadError::NotAWad);
        }
        let numlumps = read_u32(d, 4);
        let infoofs = read_u32(d, 8);
        if (infoofs as u64) + 16 * (numlumps as u64) > data.len() as u64 {
            return Err(WadError::ShortRead);
        }
        let mut lumps: Vec<Lump> = Vec::new();
        let mut k: usize = 0;
        while k < numlumps as usize
            invariant
                wad_tag_ok(data@),
                wad_dir_ok(data@),
                numlumps == wad_lump_count(data@),
                infoofs == wad_dir_offset(data@),
                infoofs + 16 * numlumps <= data@.len(),
                data@.len() <= usize::MAX,
                k <= numlumps,
                lumps@.len() == k,
                forall|j: int|
                    0 <= j < k ==> lump_matches_dir(data@, j, #[trigger] lumps@[j]) && lump_wf(
                        lumps@[j],
                    ),
            decreases numlumps - k,
        {
            let pos = infoofs as usize + 16 * k;
            let d = data.as_slice();
            let filepos = read_u32(d, pos);
            let size = read_u32(d, pos + 4);
            let raw = vstd::slice::slice_subrange(d, pos + 8, pos + 16);
            let name = bytes_to_lump_name(raw);
            proof {
                lemma_norm_name_upper(raw@);
            }
            lumps.push(Lump { name, filepos, size });
            k = k + 1;
        }
        Ok(Wad { data, lumps })
    }

    /// Number of lumps.
    pub fn len(&self) -> (r: usize)
        ensures
            r == self.spec_lumps().len(),
    {
        self.lumps.len()
    }

    /// True when the container holds no lumps.
    pub fn is_empty(&self) -> (r: bool)
        ensures
            r == (self.spec_lumps().len() == 0),
    {
        self.lumps.is_empty()
    }

    /// Borrow all directory entries.
    pub fn lumps(&self) -> (r: &[Lump])
        ensures
            r@ == self.spec_lumps(),
    {
        self.lumps.as_slice()
    }

    /// List lump names, in file order.
    pub fn names(&self) -> (r: Vec<String>)
        ensures
            r@.len() == self.spec_lumps().len(),
            forall|i: int| 0 <= i < r@.len() ==> r@[i] == (#[trigger] self.spec_lumps()[i]).name,
    {
        let mut out: Vec<String> = Vec::new();
        let mut i: usize = 0;
        while i < self.lumps.len()
            invariant
                i <= self.spec_lumps().len(),
                out@.len() == i,
                forall|j: int| 0 <= j < i ==> out@[j] == (#[trigger] self.spec_lumps()[j]).name,
            decreases self.spec_lumps().len() - i,
        {
            out.push(self.lumps[i].name.clone());
            i = i + 1;
        }
        out
    }

    /// Find all positions of lumps with the given name, case-insensitive,
    /// in file order.
    pub fn find_all(&self, name: &str) -> (r: Vec<usize>)
        ensures
            forall|k1: int, k2: int| 0 <= k1 < k2 < r@.len() ==> r@[k1] < r@[k2],
            forall|k: int|
                0 <= k < r@.len() ==> (#[trigger] r@[k]) < self.spec_lumps().len() && name_bytes(
                    self.spec_lumps()[r@[k] as int],
                ) == lookup_key(name@),
            forall|i: int|
                0 <= i < self.spec_lumps().len() && name_bytes(#[trigger] self.spec_lumps()[i])
                    == lookup_key(name@) ==> r@.contains(i as usize),
    {
        let key = to_upper_bytes(name.as_bytes());
        let mut r: Vec<usize> = Vec::new();
        let mut i: usize = 0;
        while i < self.lumps.len()
            invariant
                i <= self.spec_lumps().len(),
                key@ == lookup_key(name@),
                forall|k1: int, k2: int| 0 <= k1 < k2 < r@.len() ==> r@[k1] < r@[k2],
                forall|k: int|
                    0 <= k < r@.len() ==> (#[trigger] r@[k]) < i && name_bytes(
                        self.spec_lumps()[r@[k] as int],
                    ) == key@,
                forall|m: int|
                    0 <= m < i && name_bytes(#[trigger] self.spec_lumps()[m]) == key@
                        ==> r@.contains(m as usize),
            decreases self.spec_lumps().len() - i,
        {
            let nb = self.lumps[i].name.as_str().as_bytes();
            if bytes_eq(nb, key.as_slice()) {
                let ghost old_r = r@;
                r.push(i);
                proof {
                    assert forall|m: int|
                        0 <= m < i + 1 && name_bytes(#[trigger] self.spec_lumps()[m])
                            == key@ implies r@.contains(m as usize) by {
                        if m < i {
                            let k = choose|k: int|
                                0 <= k < old_r.len() && old_r[k] == m as usize;
                            assert(r@[k] == m as usize);
                        } else {
                            assert(r@[r@.len() - 1] == i as usize);
                        }
                    };
                }
            }
            i = i + 1;
        }
        r
    }

    /// True if at least one lump with the given name exists,
    /// case-insensitive.
    pub fn contains(&self, name: &str) -> (r: bool)
        ensures
            r == exists|i: int|
                0 <= i < self.spec_lumps().len() && name_bytes(#[trigger] self.spec_lumps()[i])
                    == lookup_key(name@),
    {
        let key = to_upper_bytes(name.as_bytes());
        let mut i: usize = 0;
        while i < self.lumps.len()
            invariant
                i <= self.spec_lumps().len(),
                key@ == lookup_key(name@),
                forall|m: int| 0 <= m < i ==> name_bytes(#[trigger] self.spec_lumps()[m]) != key@,
            decreases self.spec_lumps().len() - i,
        {
            let nb = self.lumps[i].name.as_str().as_bytes();
            if bytes_eq(nb, key.as_slice()) {
                assert(name_bytes(self.spec_lumps()[i as int]) == lookup_key(name@));
                return true;
            }
            i = i + 1;
        }
        false
    }

    /// Get the first lump with the given name, case-insensitive.
    pub fn get_first(&self, name: &str) -> (r: Option<&Lump>)
        ensures
            match first_match(self.spec_lumps(), lookup_key(name@), 0) {
                Some(i) => r matches Some(l) && *l == self.spec_lumps()[i],
                None => r is None,
            },
    {
        let key = to_upper_bytes(name.as_bytes());
        let mut i: usize = 0;
        while i < self.lumps.len()
            invariant
                i <= self.spec_lumps().len(),
                key@ == lookup_key(name@),
                first_match(self.spec_lumps(), key@, 0) == first_match(
                    self.spec_lumps(),
                    key@,
                    i as int,
                ),
            decreases self.spec_lumps().len() - i,
        {
            let nb = self.lumps[i].name.as_str().as_bytes();
            if bytes_eq(nb, key.as_slice()) {
                return Some(&self.lumps[i]);
            }
            i = i + 1;
        }
        None
    }

    /// Read a lump's bytes by its position. A span that runs past the end of
    /// the container fails this single read; the index stays usable.
    pub fn read_at(&self, idx: usize) -> (r: Result<Vec<u8>, WadError>)
        ensures
            idx >= self.spec_lumps().len() ==> (r matches Err(e) && e is IndexOutOfRange),
            idx < self.spec_lumps().len() ==> {
                let l = self.spec_lumps()[idx as int];
                if l.filepos + l.size <= self.spec_data().len() {
                    r matches Ok(b) && b@ == self.spec_data().subrange(
                        l.filepos as int,
                        l.filepos + l.size,
                    )
                } else {
                    r matches Err(e) && e is ShortRead
                }
            },
    {
        if idx >= self.lumps.len() {
            return Err(WadError::IndexOutOfRange);
        }
        let filepos = self.lumps[idx].filepos;
        let size = self.lumps[idx].size;
        if (filepos as u64) + (size as u64) > self.data.len() as u64 {
            return Err(WadError::ShortRead);
        }
        let start = filepos as usize;
        let end = start + size as usize;
        let span = vstd::slice::slice_subrange(self.data.as_slice(), start, end);
        Ok(vstd::slice::slice_to_vec(span))
    }

    /// Read the bytes of the first lump with the given name,
    /// case-insensitive.
    pub fn read(&self, name: &str) -> (r: Result<Vec<u8>, WadError>)
        ensures
            match first_match(self.spec_lumps(), lookup_key(name@), 0) {
                None => r matches Err(WadError::LumpNotFound(s)) && s@ == name@,
                Some(i) => {
                    let l = self.spec_lumps()[i];
                    if l.filepos + l.size <= self.spec_data().len() {
                        r matches Ok(b) && b@ == self.spec_data().subrange(
                            l.filepos as int,
                            l.filepos + l.size,
                        )
                    } else {
                        r matches Err(e) && e is ShortRead
                    }
                },
            },
    {
        let key = to_upper_bytes(name.as_bytes());
        let mut i: usize = 0;
        while i < self.lumps.len()
            invariant
                i <= self.spec_lumps().len(),
                key@ == lookup_key(name@),
                first_match(self.spec_lumps(), key@, 0) == first_match(
                    self.spec_lumps(),
                    key@,
                    i as int,
                ),
            decreases self.spec_lumps().len() - i,
        {
            let nb = self.lumps[i].name.as_str().as_bytes();
            if bytes_eq(nb, key.as_slice()) {
                return self.read_at(i);
            }
            i = i + 1;
        }
        Err(WadError::LumpNotFound(String::from_str(name)))
    }
}

/// The lumps whose (already upper-case) name starts with `key`, in file
/// order.
pub open spec fn lumps_with_prefix(lumps: Seq<Lump>, key: Seq<u8>) -> Seq<Lump>
    decreases lumps.len(),
{
    if lumps.len() == 0 {
        Seq::empty()
    } else if is_prefix_of(key, name_bytes(lumps.last())) {
        lumps_with_prefix(lumps.drop_last(), key).push(lumps.last())
    } else {
        lumps_with_prefix(lumps.drop_last(), key)
    }
}

/// Does the name start with any of the keys?
pub open spec fn any_prefix(keys: Seq<Seq<u8>>, nb: Seq<u8>) -> bool {
    exists|j: int| 0 <= j < keys.len() && is_prefix_of(#[trigger] keys[j], nb)
}

/// The upper-cased byte keys of a list of prefix strings.
pub open spec fn upper_keys(prefixes: Seq<&str>) -> Seq<Seq<u8>> {
    prefixes.map_values(|p: &str| upper_bytes(p.spec_bytes()))
}

/// The lumps whose name starts with any of the keys, in file order.
pub open spec fn lumps_with_any_prefix(lumps: Seq<Lump>, keys: Seq<Seq<u8>>) -> Seq<Lump>
    decreases lumps.len(),
{
    if lumps.len() == 0 {
        Seq::empty()
    } else if any_prefix(keys, name_bytes(lumps.last())) {
        lumps_with_any_prefix(lumps.drop_last(), keys).push(lumps.last())
    } else {
        lumps_with_any_prefix(lumps.drop_last(), keys)
    }
}

/// Does `nb` start with any of the upper-cased prefix keys in `ups`?
fn any_prefix_match(ups: &Vec<Vec<u8>>, nb: &[u8]) -> (r: bool)
    ensures
        r == any_prefix(ups@.map_values(|v: Vec<u8>| v@), nb@),
{
    let ghost keys = ups@.map_values(|v: Vec<u8>| v@);
    let mut found = false;
    let mut j: usize = 0;
    while j < ups.len()
        invariant
            j <= keys.len(),
            keys == ups@.map_values(|v: Vec<u8>| v@),
            found == exists|k: int| 0 <= k < j && is_prefix_of(#[trigger] keys[k], nb@),
        decreases keys.len() - j,
    {
        if starts_with_bytes(nb, ups[j].as_slice()) {
            assert(is_prefix_of(keys[j as int], nb@));
            found = true;
        }
        j = j + 1;
    }
    found
}

impl Wad {
    /// Return the lumps whose name starts with the given ASCII prefix,
    /// case-insensitive.
    pub fn by_prefix(&self, prefix: &str) -> (r: Vec<Lump>)
        ensures
            r@ == lumps_with_prefix(self.spec_lumps(), lookup_key(prefix@)),
    {
        let key = to_upper_bytes(prefix.as_bytes());
        let mut r: Vec<Lump> = Vec::new();
        let mut i: usize = 0;
        while i < self.lumps.len()
            invariant
                i <= self.spec_lumps().len(),
                key@ == lookup_key(prefix@),
                r@ == lumps_with_prefix(self.spec_lumps().take(i as int), key@),
            decreases self.spec_lumps().len() - i,
        {
            let nb = self.lumps[i].name.as_str().as_bytes();
            if starts_with_bytes(nb, key.as_slice()) {
                r.push(self.lumps[i].clone());
            }
            i = i + 1;
            proof {
                assert(self.spec_lumps().take(i as int).drop_last() =~= self.spec_lumps().take(
                    i - 1,
                ));
                assert(self.spec_lumps().take(i as int).last() == self.spec_lumps()[i - 1]);
            }
        }
        proof {
            assert(self.spec_lumps().take(self.spec_lumps().len() as int) =~= self.spec_lumps());
        }
        r
    }

    /// List the lumps matching a set of prefixes, in file order,
    /// case-insensitive; overlap across prefixes is allowed.
    pub fn list_with_prefixes(&self, prefixes: &[&str]) -> (r: Vec<Lump>)
        ensures
            r@ == lumps_with_any_prefix(self.spec_lumps(), upper_keys(prefixes@)),
    {
        let ups = upper_prefix_keys(prefixes);
        let ghost keys = upper_keys(prefixes@);
        let mut r: Vec<Lump> = Vec::new();
        let mut i: usize = 0;
        while i < self.lumps.len()
            invariant
                i <= self.spec_lumps().len(),
                ups@.map_values(|v: Vec<u8>| v@) == keys,
                keys == upper_keys(prefixes@),
                r@ == lumps_with_any_prefix(self.spec_lumps().take(i as int), keys),
            decreases self.spec_lumps().len() - i,
        {
            let nb = self.lumps[i].name.as_str().as_bytes();
            if any_prefix_match(&ups, nb) {
                r.push(self.lumps[i].clone());
            }
            i = i + 1;
            proof {
                assert(self.spec_lumps().take(i as int).drop_last() =~= self.spec_lumps().take(
                    i - 1,
                ));
                assert(self.spec_lumps().take(i as int).last() == self.spec_lumps()[i - 1]);
            }
        }
        proof {
            assert(self.spec_lumps().take(self.spec_lumps().len() as int) =~= self.spec_lumps());
        }
        r
    }

    /// The positions (in increasing file order) of the lumps matching a set
    /// of prefixes, case-insensitive: the allocation-light variant of
    /// `list_with_prefixes`.
    pub fn iter_with_prefixes(&self, prefixes: &[&str]) -> (r: Vec<usize>)
        ensures
            forall|k1: int, k2: int| 0 <= k1 < k2 < r@.len() ==> r@[k1] < r@[k2],
            forall|k: int|
                0 <= k < r@.len() ==> (#[trigger] r@[k]) < self.spec_lumps().len() && any_prefix(
                    upper_keys(prefixes@),
                    name_bytes(self.spec_lumps()[r@[k] as int]),
                ),
            forall|i: int|
                0 <= i < self.spec_lumps().len() && any_prefix(
                    upper_keys(prefixes@),
                    name_bytes(#[trigger] self.spec_lumps()[i]),
                ) ==> r@.contains(i as usize),
    {
        let ups = upper_prefix_keys(prefixes);
        let ghost keys = upper_keys(prefixes@);
        let mut r: Vec<usize> = Vec::new();
        let mut i: usize = 0;
        while i < self.lumps.len()
            invariant
                i <= self.spec_lumps().len(),
                ups@.map_values(|v: Vec<u8>| v@) == keys,
                keys == upper_keys(prefixes@),
                forall|k1: int, k2: int| 0 <= k1 < k2 < r@.len() ==> r@[k1] < r@[k2],
                forall|k: int|
                    0 <= k < r@.len() ==> (#[trigger] r@[k]) < i && any_prefix(
                        keys,
                        name_bytes(self.spec_lumps()[r@[k] as int]),
                    ),
                forall|m: int|
                    0 <= m < i && any_prefix(keys, name_bytes(#[trigger] self.spec_lumps()[m]))
                        ==> r@.contains(m as usize),
            decreases self.spec_lumps().len() - i,
        {
            let nb = self.lumps[i].name.as_str().as_bytes();
            if any_prefix_match(&ups, nb) {
                let ghost old_r = r@;
                r.push(i);
                proof {
                    assert forall|m: int|
                        0 <= m < i + 1 && any_prefix(
                            keys,
                            name_bytes(#[trigger] self.spec_lumps()[m]),
                        ) implies r@.contains(m as usize) by {
                        if m < i {
                            let k = choose|k: int|
                                0 <= k < old_r.len() && old_r[k] == m as usize;
                            assert(r@[k] == m as usize);
                        } else {
                            assert(r@[r@.len() - 1] == i as usize);
                        }
                    };
                }
            }
            i = i + 1;
        }
        r
    }
}

/// Upper-case each prefix string into its byte key.
fn upper_prefix_keys(prefixes: &[&str]) -> (r: Vec<Vec<u8>>)
    ensures
        r@.map_values(|v: Vec<u8>| v@) == upper_keys(prefixes@),
{
    let mut r: Vec<Vec<u8>> = Vec::new();
    let mut j: usize = 0;
    while j < prefixes.len()
        invariant
            j <= prefixes@.len(),
            r@.len() == j,
            forall|k: int| 0 <= k < j ==> (#[trigger] r@[k])@ == upper_keys(prefixes@)[k],
        decreases prefixes@.len() - j,
    {
        r.push(to_upper_bytes(prefixes[j].as_bytes()));
        j = j + 1;
    }
    proof {
        assert(r@.map_values(|v: Vec<u8>| v@) =~= upper_keys(prefixes@));
    }
    r
}

/// The position of the first name at or after `from` whose UTF-8 bytes
/// equal `key`.
pub open spec fn first_name_match(names: Seq<String>, key: Seq<u8>, from: int) -> Option<int>
    decreases names.len() - from,
{
    if from < 0 || from >= names.len() {
        None
    } else if vstd::utf8::encode_utf8(names[from]@) == key {
        Some(from)
    } else {
        first_name_match(names, key, from + 1)
    }
}

/// The key a song query is matched under: its bytes, trimmed of surrounding
/// ASCII whitespace and upper-cased.
pub open spec fn song_query(input: Seq<char>) -> Seq<u8> {
    upper_bytes(trim_bytes(vstd::utf8::encode_utf8(input)))
}

/// The query with the music prefix `D_` prepended.
pub open spec fn d_prefixed(q: Seq<u8>) -> Seq<u8> {
    seq![68u8, 95u8] + q
}

/// The query with the music prefix `MUS_` prepended.
pub open spec fn mus_prefixed(q: Seq<u8>) -> Seq<u8> {
    seq![77u8, 85u8, 83u8, 95u8] + q
}

/// Scan `names` for the first one whose bytes equal `key`.
fn scan_names<'a>(names: &'a [String], key: &[u8]) -> (r: Option<&'a str>)
    ensures
        match first_name_match(names@, key@, 0) {
            Some(i) => r matches Some(s) && s@ == names@[i]@,
            None => r is None,
        },
{
    let mut i: usize = 0;
    while i < names.len()
        invariant
            i <= names@.len(),
            first_name_match(names@, key@, 0) == first_name_match(names@, key@, i as int),
        decreases names@.len() - i,
    {
        let nb = names[i].as_str().as_bytes();
        if bytes_eq(nb, key) {
            return Some(names[i].as_str());
        }
        i = i + 1;
    }
    None
}

/// Find a song name in `names`. Accepts the stored name itself or the name
/// without its music prefix: the trimmed, upper-cased query is tried as
/// given, then with `D_` prepended, then with `MUS_` prepended.
pub fn find_song<'a>(names: &'a [String], input: &str) -> (r: Option<&'a str>)
    ensures
        ({
            let q = song_query(input@);
            &&& q.len() == 0 ==> r is None
            &&& q.len() > 0 ==> match first_name_match(names@, q, 0) {
                Some(i) => r matches Some(s) && s@ == names@[i]@,
                None => match first_name_match(names@, d_prefixed(q), 0) {
                    Some(i) => r matches Some(s) && s@ == names@[i]@,
                    None => match first_name_match(names@, mus_prefixed(q), 0) {
                        Some(i) => r matches Some(s) && s@ == names@[i]@,
                        None => r is None,
                    },
                },
            }
        }),
{
    let trimmed = trim_ascii_bytes(input.as_bytes());
    let q = to_upper_bytes(trimmed);
    if q.len() == 0 {
        return None;
    }
    let exact = scan_names(names, q.as_slice());
    if exact.is_some() {
        return exact;
    }
    let mut cand: Vec<u8> = Vec::new();
    cand.push(68);
    cand.push(95);
    cand.extend_from_slice(q.as_slice());
    assert(cand@ =~= d_prefixed(q@));
    let with_d = scan_names(names, cand.as_slice());
    if with_d.is_some() {
        return with_d;
    }
    let mut cand2: Vec<u8> = Vec::new();
    cand2.push(77);
    cand2.push(85);
    cand2.push(83);
    cand2.push(95);
    cand2.extend_from_slice(q.as_slice());
    assert(cand2@ =~= mus_prefixed(q@));
    scan_names(names, cand2.as_slice())
}

/// `lookup_first` and `lookup_all` agree on the first element: an index list
/// that is strictly increasing, holds only matches, and holds every match
/// (as `find_all` returns) is empty exactly when the first-match scan (as
/// `get_first` and `read` use) finds nothing, and otherwise starts with the
/// index that the scan returns.
pub proof fn lemma_first_of_all_matches(lumps: Seq<Lump>, key: Seq<u8>, idxs: Seq<usize>)
    requires
        forall|k1: int, k2: int| 0 <= k1 < k2 < idxs.len() ==> idxs[k1] < idxs[k2],
        forall|k: int|
            0 <= k < idxs.len() ==> (#[trigger] idxs[k]) < lumps.len() && name_bytes(
                lumps[idxs[k] as int],
            ) == key,
        forall|i: int|
            0 <= i < lumps.len() && name_bytes(#[trigger] lumps[i]) == key ==> idxs.contains(
                i as usize,
            ),
    ensures
        (idxs.len() == 0) <==> (first_match(lumps, key, 0) is None),
        idxs.len() > 0 ==> first_match(lumps, key, 0) == Some(idxs[0] as int),
{
    lemma_first_match(lumps, key, 0);
    match first_match(lumps, key, 0) {
        Some(f) => {
            assert(idxs.contains(f as usize));
            let k = choose|k: int| 0 <= k < idxs.len() && idxs[k] == f as usize;
            if k > 0 {
                assert(idxs[0] < idxs[k]);
            }
            assert(name_bytes(lumps[idxs[0] as int]) == key);
            assert(idxs[0] as int == f);
        },
        None => {
            if idxs.len() > 0 {
                assert(name_bytes(lumps[idxs[0] as int]) == key);
            }
        },
    }
}

/// Lookups are case-insensitive: a query and its upper-cased form produce
/// the same lookup key, and every lookup (`find_all`, `contains`,
/// `get_first`, `read`) is specified purely in terms of that key.
pub proof fn lemma_lookup_key_case_insensitive(q: Seq<char>, u: Seq<char>)
    requires
        vstd::utf8::encode_utf8(u) == upper_bytes(vstd::utf8::encode_utf8(q)),
    ensures
        lookup_key(u) == lookup_key(q),
{
    crate::ascii::lemma_upper_bytes_idempotent(vstd::utf8::encode_utf8(q));
}

/// A well-formed lump's own name, used as a query, produces exactly that
/// name as its lookup key: stored names are already normalized, so lookups
/// for any casing of a name find it.
pub proof fn lemma_name_is_its_own_key(l: Lump)
    requires
        lump_wf(l),
    ensures
        lookup_key(l.name@) == name_bytes(l),
{
}

/// Open a container and read the first lump with the given name: a minimal
/// helper for a one-off read. Uses the `Wad` type under the hood.
pub fn read_lump(data: Vec<u8>, name: &str) -> (r: Result<Vec<u8>, WadError>)
    ensures
        data@.len() < 12 ==> (r matches Err(e) && e is ShortRead),
        data@.len() >= 12 && !wad_tag_ok(data@) ==> (r matches Err(e) && e is NotAWad),
        wad_tag_ok(data@) && !wad_dir_ok(data@) ==> (r matches Err(e) && e is ShortRead),
        wad_tag_ok(data@) && wad_dir_ok(data@) ==> match first_dir_match(
            data@,
            lookup_key(name@),
            0,
        ) {
            None => r matches Err(WadError::LumpNotFound(s)) && s@ == name@,
            Some(i) => {
                if dir_filepos(data@, i) + dir_size(data@, i) <= data@.len() {
                    r matches Ok(b) && b@ == data@.subrange(
                        dir_filepos(data@, i) as int,
                        dir_filepos(data@, i) + dir_size(data@, i),
                    )
                } else {
                    r matches Err(e) && e is ShortRead
                }
            },
        },
{
    let ghost d = data@;
    let wad = match Wad::open(data) {
        Ok(w) => w,
        Err(e) => {
            return Err(e);
        },
    };
    proof {
        lemma_first_match_dir(wad.spec_lumps(), d, lookup_key(name@), 0);
        lemma_first_match(wad.spec_lumps(), lookup_key(name@), 0);
        if let Some(i) = first_dir_match(d, lookup_key(name@), 0) {
            assert(lump_matches_dir(d, i, wad.spec_lumps()[i]));
        }
    }
    wad.read(name)
}

} // verus!
