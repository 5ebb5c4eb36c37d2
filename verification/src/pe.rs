//! Read-only inspection of the vendor's LCD driver DLL: a PE/COFF reader
//! for sections and named exports, filters for media-related names and
//! embedded strings, a hex dump, and the text report built from them.

use vstd::prelude::*;
use crate::text::{
    lossy_string, utf8_lossy,
    ascii_lower, chars_equal, chars_of, contains, contains_seq, decimal, hex, hex_padded, push_all,
    push_decimal, push_hex_padded, push_str, string_of, to_ascii_lower,
};

verus! {

// ---------------------------------------------------------------------
// Errors

/// Why a file could not be read as a PE image.
#[derive(Debug, PartialEq, Eq)]
pub enum PeError {
    /// The file does not start with `MZ`.
    NotPe,
    /// No `PE\0\0` signature where the DOS header points.
    NoSignature,
    /// The optional header is neither PE32 nor PE32+.
    UnsupportedMagic(u16),
    /// A field at this offset lies past the end of the file.
    ReadPastEnd(u64),
    /// A section header lies past the end of the file.
    SectionTableTruncated,
    /// The export directory's RVA lies in no section.
    UnmappedExportRva(u32),
    /// The export address table lies in no section.
    UnmappedFunctionTable,
    /// The export name table lies in no section.
    UnmappedNameTable,
    /// The export ordinal table lies in no section.
    UnmappedOrdinalTable,
    /// An export name's RVA lies in no section.
    UnmappedExportName(u32),
    /// A string's offset lies outside the file.
    StringOutsideFile(u64),
}

/// The text reported for a PE error.
pub open spec fn pe_error_text(e: PeError) -> Seq<char> {
    match e {
        PeError::NotPe => "File is not an MZ/PE image"@,
        PeError::NoSignature => "PE signature was not found"@,
        PeError::UnsupportedMagic(m) => "Unsupported PE optional-header magic 0x"@ + hex_padded(m as nat, 4),
        PeError::ReadPastEnd(o) => "PE read past end at 0x"@ + hex(o as nat),
        PeError::SectionTableTruncated => "Section table is truncated"@,
        PeError::UnmappedExportRva(r) => "Could not map export RVA 0x"@ + hex_padded(r as nat, 8),
        PeError::UnmappedFunctionTable => "Could not map export function table"@,
        PeError::UnmappedNameTable => "Could not map export name table"@,
        PeError::UnmappedOrdinalTable => "Could not map export ordinal table"@,
        PeError::UnmappedExportName(r) => "Could not map export-name RVA 0x"@ + hex_padded(r as nat, 8),
        PeError::StringOutsideFile(o) => "string offset 0x"@ + hex(o as nat) + " is outside file"@,
    }
}

impl PeError {
    /// The error text.
    pub fn message(&self) -> (s: String)
        ensures
            s@ == pe_error_text(*self),
    {
        let mut v: Vec<char> = Vec::new();
        match self {
            PeError::NotPe => push_str(&mut v, "File is not an MZ/PE image"),
            PeError::NoSignature => push_str(&mut v, "PE signature was not found"),
            PeError::UnsupportedMagic(m) => {
                push_str(&mut v, "Unsupported PE optional-header magic 0x");
                push_hex_padded(&mut v, *m as u64, 4);
            }
            PeError::ReadPastEnd(o) => {
                push_str(&mut v, "PE read past end at 0x");
                push_hex_padded(&mut v, *o, 0);
            }
            PeError::SectionTableTruncated => push_str(&mut v, "Section table is truncated"),
            PeError::UnmappedExportRva(r) => {
                push_str(&mut v, "Could not map export RVA 0x");
                push_hex_padded(&mut v, *r as u64, 8);
            }
            PeError::UnmappedFunctionTable => push_str(&mut v, "Could not map export function table"),
            PeError::UnmappedNameTable => push_str(&mut v, "Could not map export name table"),
            PeError::UnmappedOrdinalTable => push_str(&mut v, "Could not map export ordinal table"),
            PeError::UnmappedExportName(r) => {
                push_str(&mut v, "Could not map export-name RVA 0x");
                push_hex_padded(&mut v, *r as u64, 8);
            }
            PeError::StringOutsideFile(o) => {
                push_str(&mut v, "string offset 0x");
                push_hex_padded(&mut v, *o, 0);
                push_str(&mut v, " is outside file");
            }
        }
        proof {
            assert forall|n: nat| #[trigger] hex_padded(n, 0) == hex(n) by {}
        }
        string_of(&v)
    }
}

// ---------------------------------------------------------------------
// Little-endian fields

/// The little-endian `u16` at `off`, if the file holds it.
pub open spec fn u16_at(b: Seq<u8>, off: int) -> Result<u16, PeError> {
    if 0 <= off && off + 2 <= b.len() {
        Ok((b[off] as int + b[off + 1] as int * 256) as u16)
    } else {
        Err(PeError::ReadPastEnd(off as u64))
    }
}

/// The little-endian `u32` at `off`, if the file holds it.
pub open spec fn u32_at(b: Seq<u8>, off: int) -> Result<u32, PeError> {
    if 0 <= off && off + 4 <= b.len() {
        Ok((b[off] as int + b[off + 1] as int * 256 + b[off + 2] as int * 65536 + b[off + 3] as int * 16777216) as u32)
    } else {
        Err(PeError::ReadPastEnd(off as u64))
    }
}

fn u16_at_exec(b: &[u8], off: u64) -> (r: Result<u16, PeError>)
    ensures
        r == u16_at(b@, off as int),
{
    let len = b.len() as u64;
    if off <= len && 2 <= len - off {
        let i = off as usize;
        Ok((b[i] as u16) + (b[i + 1] as u16) * 256)
    } else {
        Err(PeError::ReadPastEnd(off))
    }
}

fn u32_at_exec(b: &[u8], off: u64) -> (r: Result<u32, PeError>)
    ensures
        r == u32_at(b@, off as int),
{
    let len = b.len() as u64;
    if off <= len && 4 <= len - off {
        let i = off as usize;
        Ok((b[i] as u32) + (b[i + 1] as u32) * 256 + (b[i + 2] as u32) * 65536 + (b[i + 3] as u32) * 16777216)
    } else {
        Err(PeError::ReadPastEnd(off))
    }
}

/// Reads the little-endian `u16` at `offset`.
pub fn read_u16(bytes: &[u8], offset: usize) -> (r: Result<u16, PeError>)
    ensures
        r == u16_at(bytes@, offset as int),
{
    u16_at_exec(bytes, offset as u64)
}

/// Reads the little-endian `u32` at `offset`.
pub fn read_u32(bytes: &[u8], offset: usize) -> (r: Result<u32, PeError>)
    ensures
        r == u32_at(bytes@, offset as int),
{
    u32_at_exec(bytes, offset as u64)
}

// ---------------------------------------------------------------------
// Strings

/// Offset of the first zero byte at or after `from`, or the file length.
pub open spec fn nul_from(b: Seq<u8>, from: int) -> int
    decreases b.len() - from,
{
    if from >= b.len() || from < 0 {
        b.len() as int
    } else if b[from] == 0 {
        from
    } else {
        nul_from(b, from + 1)
    }
}

proof fn lemma_nul_from(b: Seq<u8>, from: int, i: int)
    requires
        0 <= from <= i <= b.len(),
        forall|k: int| from <= k < i ==> b[k] != 0,
        i == b.len() || b[i] == 0,
    ensures
        nul_from(b, from) == i,
    decreases i - from,
{
    if from < i {
        lemma_nul_from(b, from + 1, i);
    }
}

/// The zero-terminated string at `off` (or to the end of the file).
pub open spec fn c_string_at(b: Seq<u8>, off: int) -> Result<Seq<char>, PeError> {
    if off >= b.len() || off < 0 {
        Err(PeError::StringOutsideFile(off as u64))
    } else {
        Ok(utf8_lossy(b.subrange(off, nul_from(b, off))))
    }
}

fn c_string_at_exec(b: &[u8], off: u64) -> (r: Result<String, PeError>)
    ensures
        match r {
            Ok(s) => c_string_at(b@, off as int) == Ok::<Seq<char>, PeError>(s@),
            Err(e) => c_string_at(b@, off as int) == Err::<Seq<char>, PeError>(e),
        },
{
    if off >= b.len() as u64 {
        return Err(PeError::StringOutsideFile(off));
    }
    let start = off as usize;
    let mut end = start;
    while end < b.len() && b[end] != 0
        invariant
            start <= end <= b@.len(),
            forall|k: int| start <= k < end ==> b@[k] != 0,
        decreases b.len() - end,
    {
        end = end + 1;
    }
    proof {
        lemma_nul_from(b@, start as int, end as int);
    }
    let s = lossy_string(&b[start..end]);
    Ok(s)
}

/// Reads the zero-terminated string at `offset`.
pub fn read_c_string(bytes: &[u8], offset: usize) -> (r: Result<String, PeError>)
    ensures
        match r {
            Ok(s) => c_string_at(bytes@, offset as int) == Ok::<Seq<char>, PeError>(s@),
            Err(e) => c_string_at(bytes@, offset as int) == Err::<Seq<char>, PeError>(e),
        },
{
    c_string_at_exec(bytes, offset as u64)
}

// ---------------------------------------------------------------------
// Sections

/// A section header.
#[derive(Debug)]
pub struct Section {
    pub name: String,
    pub virtual_address: u32,
    pub virtual_size: u32,
    pub raw_offset: u32,
    pub raw_size: u32,
}

/// A section header as plain values.
pub struct SectionView {
    pub name: Seq<char>,
    pub virtual_address: u32,
    pub virtual_size: u32,
    pub raw_offset: u32,
    pub raw_size: u32,
}

impl View for Section {
    type V = SectionView;

    open spec fn view(&self) -> SectionView {
        SectionView {
            name: self.name@,
            virtual_address: self.virtual_address,
            virtual_size: self.virtual_size,
            raw_offset: self.raw_offset,
            raw_size: self.raw_size,
        }
    }
}

/// The views of a list of sections.
pub open spec fn section_views(ss: Seq<Section>) -> Seq<SectionView> {
    ss.map_values(|s: Section| s@)
}

/// The extent of a section in memory: the larger of its virtual and raw sizes.
pub open spec fn section_span(s: SectionView) -> int {
    if s.virtual_size >= s.raw_size { s.virtual_size as int } else { s.raw_size as int }
}

/// The file offset of `rva` within section `s`, when the section covers it
/// and neither its end nor the offset overflows 32 bits.
pub open spec fn section_offset(s: SectionView, rva: u32) -> Option<int> {
    let end = s.virtual_address + section_span(s);
    if end > u32::MAX {
        None
    } else if s.virtual_address <= rva && rva < end {
        let o = s.raw_offset + (rva - s.virtual_address);
        if o > u32::MAX { None } else { Some(o) }
    } else {
        None
    }
}

/// The file offset of `rva` in the first section that maps it.
pub open spec fn rva_offset(ss: Seq<SectionView>, rva: u32) -> Option<int>
    decreases ss.len(),
{
    if ss.len() == 0 {
        None
    } else {
        match section_offset(ss[0], rva) {
            Some(o) => Some(o),
            None => rva_offset(ss.drop_first(), rva),
        }
    }
}

proof fn lemma_rva_offset_step(ss: Seq<SectionView>, i: int, rva: u32)
    requires
        0 <= i < ss.len(),
        section_offset(ss[i], rva) is None,
    ensures
        rva_offset(ss.subrange(i, ss.len() as int), rva) == rva_offset(ss.subrange(i + 1, ss.len() as int), rva),
{
    let t = ss.subrange(i, ss.len() as int);
    assert(t[0] == ss[i]);
    assert(t.drop_first() =~= ss.subrange(i + 1, ss.len() as int));
}

fn section_offset_exec(s: &Section, rva: u32) -> (r: Option<u32>)
    ensures
        match r {
            Some(o) => section_offset(s@, rva) == Some(o as int),
            None => section_offset(s@, rva) is None,
        },
{
    let span = if s.virtual_size >= s.raw_size { s.virtual_size } else { s.raw_size };
    let end = s.virtual_address.checked_add(span)?;
    if rva >= s.virtual_address && rva < end {
        let within = rva - s.virtual_address;
        s.raw_offset.checked_add(within)
    } else {
        None
    }
}

/// The file offset of an RVA, from the first section that maps it.
pub fn rva_to_offset(rva: u32, sections: &Vec<Section>) -> (r: Option<usize>)
    ensures
        match r {
            Some(o) => rva_offset(section_views(sections@), rva) == Some(o as int),
            None => rva_offset(section_views(sections@), rva) is None,
        },
{
    let ghost vs = section_views(sections@);
    assert(vs.subrange(0, vs.len() as int) =~= vs);
    for i in 0..sections.len()
        invariant
            vs == section_views(sections@),
            rva_offset(vs, rva) == rva_offset(vs.subrange(i as int, vs.len() as int), rva),
    {
        let r = section_offset_exec(&sections[i], rva);
        assert(vs[i as int] == sections@[i as int]@);
        match r {
            Some(o) => {
                proof {
                    let t = vs.subrange(i as int, vs.len() as int);
                    assert(t[0] == vs[i as int]);
                }
                return Some(o as usize);
            }
            None => {
                proof {
                    lemma_rva_offset_step(vs, i as int, rva);
                }
            }
        }
    }
    assert(vs.subrange(vs.len() as int, vs.len() as int) =~= Seq::<SectionView>::empty());
    None
}

/// Section `s` covers `rva`, its end clamped at `u32::MAX`.
pub open spec fn section_covers(s: SectionView, rva: u32) -> bool {
    let end = s.virtual_address + section_span(s);
    let end = if end > u32::MAX { u32::MAX as int } else { end };
    s.virtual_address <= rva && rva < end
}

/// The first section that covers `rva`.
pub fn section_for_rva(rva: u32, sections: &Vec<Section>) -> (r: Option<&Section>)
    ensures
        match r {
            Some(s) => exists|i: int| 0 <= i < sections@.len() && sections@[i] == *s && section_covers(s@, rva)
                && forall|j: int| 0 <= j < i ==> !section_covers(#[trigger] sections@[j]@, rva),
            None => forall|j: int| 0 <= j < sections@.len() ==> !section_covers(#[trigger] sections@[j]@, rva),
        },
{
    for i in 0..sections.len()
        invariant
            forall|j: int| 0 <= j < i ==> !section_covers(#[trigger] sections@[j]@, rva),
    {
        let s = &sections[i];
        let span = if s.virtual_size >= s.raw_size { s.virtual_size } else { s.raw_size };
        let end = s.virtual_address.saturating_add(span);
        if rva >= s.virtual_address && rva < end {
            assert(section_covers(sections@[i as int]@, rva));
            return Some(s);
        }
    }
    None
}

// ---------------------------------------------------------------------
// Media-related names

/// The words that mark a name as related to the LCD's stored media.
pub open spec fn interesting_words() -> Seq<Seq<char>> {
    seq![
        "read"@, "get"@, "background"@, "hardware"@, "animation"@, "screen"@, "flash"@,
        "image"@, "memory"@, "storage"@, "download"@, "upload"@, "segment"@, "customized"@,
    ]
}

/// `value`, ASCII lower-cased, contains one of the interesting words.
pub open spec fn is_interesting(value: Seq<char>) -> bool {
    exists|i: int| 0 <= i < 14 && contains_seq(ascii_lower(value), #[trigger] interesting_words()[i])
}

fn interesting_chars(value: &Vec<char>) -> (r: bool)
    ensures
        r == is_interesting(value@),
{
    let lower = to_ascii_lower(value);
    let words: [&str; 14] = [
        "read", "get", "background", "hardware", "animation", "screen", "flash",
        "image", "memory", "storage", "download", "upload", "segment", "customized",
    ];
    assert(forall|i: int| 0 <= i < 14 ==> (#[trigger] words@[i])@ == interesting_words()[i]);
    for i in 0..14usize
        invariant
            lower@ == ascii_lower(value@),
            forall|j: int| 0 <= j < 14 ==> (#[trigger] words@[j])@ == interesting_words()[j],
            forall|j: int| 0 <= j < i ==> !contains_seq(lower@, #[trigger] interesting_words()[j]),
    {
        let w = chars_of(words[i]);
        if contains(&lower, &w) {
            assert(contains_seq(lower@, interesting_words()[i as int]));
            return true;
        }
    }
    false
}

/// Whether a name looks related to reading or writing the LCD's media.
pub fn looks_interesting(value: &str) -> (r: bool)
    ensures
        r == is_interesting(value@),
{
    let chars = chars_of(value);
    interesting_chars(&chars)
}


// ---------------------------------------------------------------------
// Headers, section table and export table

/// What the DOS, COFF and optional headers give: the offset of the section
/// table, the number of sections, and the RVA of the export directory.
pub open spec fn pe_headers(b: Seq<u8>) -> Result<(int, nat, u32), PeError> {
    if !(b.len() >= 2 && b[0] == 0x4du8 && b[1] == 0x5au8) {
        Err(PeError::NotPe)
    } else {
        match u32_at(b, 0x3c) {
            Err(e) => Err(e),
            Ok(pe32) => {
                let pe = pe32 as int;
                if !(pe + 4 <= b.len() && b[pe] == 0x50u8 && b[pe + 1] == 0x45u8 && b[pe + 2] == 0u8 && b[pe + 3] == 0u8) {
                    Err(PeError::NoSignature)
                } else {
                    match u16_at(b, pe + 6) {
                        Err(e) => Err(e),
                        Ok(count) => match u16_at(b, pe + 20) {
                            Err(e) => Err(e),
                            Ok(optional_size) => {
                                let opt = pe + 24;
                                match u16_at(b, opt) {
                                    Err(e) => Err(e),
                                    Ok(magic) => {
                                        if magic != 0x20b && magic != 0x10b {
                                            Err(PeError::UnsupportedMagic(magic))
                                        } else {
                                            let dd = if magic == 0x20b { opt + 112 } else { opt + 96 };
                                            match u32_at(b, dd) {
                                                Err(e) => Err(e),
                                                Ok(export_rva) => match u32_at(b, dd + 4) {
                                                    Err(e) => Err(e),
                                                    Ok(_) => Ok((opt + optional_size, count as nat, export_rva)),
                                                },
                                            }
                                        }
                                    },
                                }
                            },
                        },
                    }
                }
            },
        }
    }
}

/// Header law: in an image with the `MZ` mark, the PE signature `PE\0\0`
/// at the offset stored at 0x3C, and room for the optional header's data
/// directories, the headers are read. The sections are counted by the
/// little-endian `u16` 6 bytes after the signature, and their table starts
/// right after the optional header, whose size is the `u16` 20 bytes after
/// the signature. The export directory's RVA is the little-endian `u32` 96
/// bytes into the optional header of a PE32 image (magic 0x10b) and 112
/// bytes into that of a PE32+ image (magic 0x20b).
pub proof fn lemma_pe_header_fields(b: Seq<u8>, pe: u32)
    requires
        b.len() >= 0x40,
        b[0] == 0x4du8 && b[1] == 0x5au8,
        b[0x3c] as int + b[0x3d] as int * 256 + b[0x3e] as int * 65536 + b[0x3f] as int * 16777216 == pe,
        pe + 24 + 120 <= b.len(),
        b[pe as int] == 0x50u8 && b[pe + 1] == 0x45u8 && b[pe + 2] == 0u8 && b[pe + 3] == 0u8,
        b[pe + 24] == 0x0bu8,
        b[pe + 25] == 0x01u8 || b[pe + 25] == 0x02u8,
    ensures
        ({
            let opt = pe + 24;
            let dd = if b[pe + 25] == 0x01u8 { opt + 96 } else { opt + 112 };
            pe_headers(b) == Ok::<(int, nat, u32), PeError>((
                opt + b[pe + 20] as int + b[pe + 21] as int * 256,
                (b[pe + 6] as int + b[pe + 7] as int * 256) as nat,
                (b[dd] as int + b[dd + 1] as int * 256 + b[dd + 2] as int * 65536 + b[dd + 3] as int * 16777216) as u32,
            ))
        }),
{
    let p = pe as int;
    assert(u32_at(b, 0x3c) == Ok::<u32, PeError>(pe));
    assert(u16_at(b, p + 24) == Ok::<u16, PeError>(if b[p + 25] == 0x01u8 { 0x10bu16 } else { 0x20bu16 }));
}

/// Length of a section name: up to its first zero byte, at most 8 bytes.
pub open spec fn section_name_len(b: Seq<u8>, off: int) -> int {
    if nul_from(b, off) < off + 8 { nul_from(b, off) - off } else { 8 }
}

/// The section header at `off`.
pub open spec fn section_header(b: Seq<u8>, off: int) -> Result<SectionView, PeError> {
    if !(0 <= off && off + 8 <= b.len()) {
        Err(PeError::SectionTableTruncated)
    } else {
        let name = utf8_lossy(b.subrange(off, off + section_name_len(b, off)));
        match u32_at(b, off + 8) {
            Err(e) => Err(e),
            Ok(vsize) => match u32_at(b, off + 12) {
                Err(e) => Err(e),
                Ok(vaddr) => match u32_at(b, off + 16) {
                    Err(e) => Err(e),
                    Ok(rsize) => match u32_at(b, off + 20) {
                        Err(e) => Err(e),
                        Ok(roff) => Ok(SectionView {
                            name,
                            virtual_address: vaddr,
                            virtual_size: vsize,
                            raw_offset: roff,
                            raw_size: rsize,
                        }),
                    },
                },
            },
        }
    }
}

/// The first `n` section headers of the table at `table` (40 bytes each).
pub open spec fn section_table(b: Seq<u8>, table: int, n: nat) -> Result<Seq<SectionView>, PeError>
    decreases n,
{
    if n == 0 {
        Ok(Seq::empty())
    } else {
        match section_table(b, table, (n - 1) as nat) {
            Err(e) => Err(e),
            Ok(ss) => match section_header(b, table + (n - 1) * 40) {
                Err(e) => Err(e),
                Ok(s) => Ok(ss.push(s)),
            },
        }
    }
}

/// A named export.
#[derive(Debug)]
pub struct Export {
    pub name: String,
    pub rva: u32,
    pub ordinal: u16,
}

/// A named export as plain values.
pub struct ExportView {
    pub name: Seq<char>,
    pub rva: u32,
    pub ordinal: u16,
}

impl View for Export {
    type V = ExportView;

    open spec fn view(&self) -> ExportView {
        ExportView { name: self.name@, rva: self.rva, ordinal: self.ordinal }
    }
}

/// The views of a list of exports.
pub open spec fn export_views(es: Seq<Export>) -> Seq<ExportView> {
    es.map_values(|e: Export| e@)
}

/// Where the export tables are: ordinal base, number of functions, number
/// of names, and the file offsets of the address, name and ordinal tables.
pub struct ExportTables {
    pub base: u32,
    pub function_count: u32,
    pub name_count: u32,
    pub functions: int,
    pub names: int,
    pub ordinals: int,
}

/// The export directory of the image.
pub open spec fn export_tables(b: Seq<u8>, ss: Seq<SectionView>, export_rva: u32) -> Result<ExportTables, PeError> {
    match rva_offset(ss, export_rva) {
        None => Err(PeError::UnmappedExportRva(export_rva)),
        Some(eo) => match u32_at(b, eo + 16) {
            Err(e) => Err(e),
            Ok(base) => match u32_at(b, eo + 20) {
                Err(e) => Err(e),
                Ok(fcount) => match u32_at(b, eo + 24) {
                    Err(e) => Err(e),
                    Ok(ncount) => match u32_at(b, eo + 28) {
                        Err(e) => Err(e),
                        Ok(frva) => match u32_at(b, eo + 32) {
                            Err(e) => Err(e),
                            Ok(nrva) => match u32_at(b, eo + 36) {
                                Err(e) => Err(e),
                                Ok(orva) => match rva_offset(ss, frva) {
                                    None => Err(PeError::UnmappedFunctionTable),
                                    Some(fo) => match rva_offset(ss, nrva) {
                                        None => Err(PeError::UnmappedNameTable),
                                        Some(no) => match rva_offset(ss, orva) {
                                            None => Err(PeError::UnmappedOrdinalTable),
                                            Some(oo) => Ok(ExportTables {
                                                base,
                                                function_count: fcount,
                                                name_count: ncount,
                                                functions: fo,
                                                names: no,
                                                ordinals: oo,
                                            }),
                                        },
                                    },
                                },
                            },
                        },
                    },
                },
            },
        },
    }
}

/// Named export `i`: nothing when its ordinal index is outside the address
/// table. Its ordinal is the base plus the index (saturating), truncated
/// to 16 bits.
pub open spec fn export_entry(b: Seq<u8>, ss: Seq<SectionView>, t: ExportTables, i: int) -> Result<Option<ExportView>, PeError> {
    match u32_at(b, t.names + i * 4) {
        Err(e) => Err(e),
        Ok(name_rva) => match rva_offset(ss, name_rva) {
            None => Err(PeError::UnmappedExportName(name_rva)),
            Some(name_off) => match c_string_at(b, name_off) {
                Err(e) => Err(e),
                Ok(name) => match u16_at(b, t.ordinals + i * 2) {
                    Err(e) => Err(e),
                    Ok(oi) => {
                        if oi >= t.function_count {
                            Ok(None)
                        } else {
                            match u32_at(b, t.functions + oi * 4) {
                                Err(e) => Err(e),
                                Ok(rva) => {
                                    let sum = t.base as int + oi as int;
                                    let sat = if sum > u32::MAX { u32::MAX as int } else { sum };
                                    Ok(Some(ExportView { name, rva, ordinal: (sat % 65536) as u16 }))
                                },
                            }
                        }
                    },
                },
            },
        },
    }
}

/// The first `n` named exports, in name-table order.
pub open spec fn export_list(b: Seq<u8>, ss: Seq<SectionView>, t: ExportTables, n: nat) -> Result<Seq<ExportView>, PeError>
    decreases n,
{
    if n == 0 {
        Ok(Seq::empty())
    } else {
        match export_list(b, ss, t, (n - 1) as nat) {
            Err(e) => Err(e),
            Ok(es) => match export_entry(b, ss, t, n - 1) {
                Err(e) => Err(e),
                Ok(None) => Ok(es),
                Ok(Some(x)) => Ok(es.push(x)),
            },
        }
    }
}

// ---------------------------------------------------------------------
// Ordering names

/// Lexicographic order of character sequences (the order of `String`s).
pub open spec fn name_le(a: Seq<char>, b: Seq<char>) -> bool
    decreases a.len(),
{
    if a.len() == 0 {
        true
    } else if b.len() == 0 {
        false
    } else if a[0] != b[0] {
        (a[0] as u32) < (b[0] as u32)
    } else {
        name_le(a.drop_first(), b.drop_first())
    }
}

/// Inserts `e` into name-sorted `s` after every entry whose name is not
/// greater (so equal names keep their order).
pub open spec fn insert_by_name(s: Seq<ExportView>, e: ExportView) -> Seq<ExportView>
    decreases s.len(),
{
    if s.len() == 0 {
        seq![e]
    } else if name_le(s.last().name, e.name) {
        s.push(e)
    } else {
        insert_by_name(s.drop_last(), e).push(s.last())
    }
}

/// `s` stably sorted by name.
pub open spec fn sort_by_name(s: Seq<ExportView>) -> Seq<ExportView>
    decreases s.len(),
{
    if s.len() == 0 {
        s
    } else {
        insert_by_name(sort_by_name(s.drop_last()), s.last())
    }
}

proof fn lemma_name_le_total(a: Seq<char>, b: Seq<char>)
    ensures
        name_le(a, b) || name_le(b, a),
    decreases a.len(),
{
    if a.len() > 0 && b.len() > 0 {
        if a[0] == b[0] {
            lemma_name_le_total(a.drop_first(), b.drop_first());
        } else {
            vstd::utf8::char_u32_cast(a[0], a[0] as u32);
            vstd::utf8::char_u32_cast(b[0], b[0] as u32);
            assert((a[0] as u32) != (b[0] as u32));
        }
    }
}

proof fn lemma_name_le_trans(a: Seq<char>, b: Seq<char>, c: Seq<char>)
    requires
        name_le(a, b),
        name_le(b, c),
    ensures
        name_le(a, c),
    decreases a.len(),
{
    if a.len() > 0 && b.len() > 0 && c.len() > 0 && a[0] == b[0] && b[0] == c[0] {
        lemma_name_le_trans(a.drop_first(), b.drop_first(), c.drop_first());
    }
}

/// The exports are in name order.
pub open spec fn sorted_by_name(s: Seq<ExportView>) -> bool {
    forall|i: int, j: int| 0 <= i < j < s.len() ==> name_le(#[trigger] s[i].name, #[trigger] s[j].name)
}

proof fn lemma_insert_bounded(s: Seq<ExportView>, e: ExportView, bound: Seq<char>)
    requires
        forall|i: int| 0 <= i < s.len() ==> name_le(#[trigger] s[i].name, bound),
        name_le(e.name, bound),
    ensures
        forall|i: int| 0 <= i < insert_by_name(s, e).len() ==> name_le(#[trigger] insert_by_name(s, e)[i].name, bound),
    decreases s.len(),
{
    if s.len() == 0 {
        assert(insert_by_name(s, e)[0] == e);
    } else if name_le(s.last().name, e.name) {
        let r = s.push(e);
        assert forall|i: int| 0 <= i < r.len() implies name_le(#[trigger] r[i].name, bound) by {
            if i < s.len() {
                assert(r[i] == s[i]);
            }
        }
    } else {
        lemma_insert_bounded(s.drop_last(), e, bound);
        let m = insert_by_name(s.drop_last(), e);
        let r = m.push(s.last());
        assert forall|i: int| 0 <= i < r.len() implies name_le(#[trigger] r[i].name, bound) by {
            if i < m.len() {
                assert(r[i] == m[i]);
            }
        }
    }
}

proof fn lemma_insert_sorted(s: Seq<ExportView>, e: ExportView)
    requires
        sorted_by_name(s),
    ensures
        sorted_by_name(insert_by_name(s, e)),
        insert_by_name(s, e).to_multiset() == s.to_multiset().insert(e),
    decreases s.len(),
{
    broadcast use vstd::seq_lib::group_to_multiset_ensures;
    if s.len() == 0 {
        assert(seq![e] =~= Seq::<ExportView>::empty().push(e));
    } else {
        let last = s.last();
        let d = s.drop_last();
        assert(s =~= d.push(last));
        if name_le(last.name, e.name) {
            let r = s.push(e);
            assert forall|i: int, j: int| 0 <= i < j < r.len() implies name_le(#[trigger] r[i].name, #[trigger] r[j].name) by {
                if j == s.len() && i < s.len() - 1 {
                    lemma_name_le_trans(s[i].name, last.name, e.name);
                }
            }
        } else {
            lemma_name_le_total(last.name, e.name);
            assert(sorted_by_name(d));
            lemma_insert_sorted(d, e);
            let m = insert_by_name(d, e);
            assert forall|i: int| 0 <= i < d.len() implies name_le(#[trigger] d[i].name, last.name) by {
                assert(s[i] == d[i]);
            }
            lemma_insert_bounded(d, e, last.name);
            let r = m.push(last);
            assert forall|i: int, j: int| 0 <= i < j < r.len() implies name_le(#[trigger] r[i].name, #[trigger] r[j].name) by {
                if j < m.len() {
                    assert(r[i] == m[i] && r[j] == m[j]);
                } else {
                    assert(r[i] == m[i]);
                }
            }
            assert(r.to_multiset() =~= s.to_multiset().insert(e));
        }
    }
}

/// Sorting law: the exports are reported in name order (each name at most
/// the next in the order of strings), and they are exactly the exports that
/// were read, each as often as before.
pub proof fn lemma_sort_by_name(s: Seq<ExportView>)
    ensures
        sorted_by_name(sort_by_name(s)),
        sort_by_name(s).to_multiset() == s.to_multiset(),
    decreases s.len(),
{
    broadcast use vstd::seq_lib::group_to_multiset_ensures;
    if s.len() > 0 {
        lemma_sort_by_name(s.drop_last());
        lemma_insert_sorted(sort_by_name(s.drop_last()), s.last());
        assert(s =~= s.drop_last().push(s.last()));
    }
}

/// String-order law: a name comes no later than another exactly when it is
/// a prefix of it, or at the first position where they differ its
/// character has the smaller code point.
pub proof fn lemma_name_order(a: Seq<char>, b: Seq<char>)
    ensures
        name_le(a, b) <==> (a.len() <= b.len() && b.subrange(0, a.len() as int) == a) || exists|k: int|
            0 <= k < a.len() && k < b.len() && a.subrange(0, k) == b.subrange(0, k) && (#[trigger] a[k] as u32) < (b[k] as u32),
    decreases a.len(),
{
    if a.len() == 0 {
        assert(b.subrange(0, 0) =~= a);
    } else if b.len() == 0 {
    } else if a[0] != b[0] {
        if (a[0] as u32) < (b[0] as u32) {
            assert(a.subrange(0, 0) =~= b.subrange(0, 0));
        }
        assert forall|k: int| 0 <= k < a.len() && k < b.len() && a.subrange(0, k) == b.subrange(0, k) implies k == 0 by {
            if k > 0 {
                assert(a.subrange(0, k)[0] == b.subrange(0, k)[0]);
            }
        }
        if a.len() <= b.len() && b.subrange(0, a.len() as int) == a {
            assert(b.subrange(0, a.len() as int)[0] == a[0]);
        }
    } else {
        let a1 = a.drop_first();
        let b1 = b.drop_first();
        lemma_name_order(a1, b1);
        if a1.len() <= b1.len() && b1.subrange(0, a1.len() as int) == a1 {
            assert forall|t: int| 0 <= t < a.len() implies b[t] == a[t] by {
                if t > 0 {
                    assert(b1.subrange(0, a1.len() as int)[t - 1] == a1[t - 1]);
                }
            }
            assert(b.subrange(0, a.len() as int) =~= a);
        }
        if a.len() <= b.len() && b.subrange(0, a.len() as int) == a {
            assert(b1.subrange(0, a1.len() as int) =~= a1);
        }
        if exists|k: int| 0 <= k < a1.len() && k < b1.len() && a1.subrange(0, k) == b1.subrange(0, k) && (#[trigger] a1[k] as u32) < (b1[k] as u32) {
            let k = choose|k: int| 0 <= k < a1.len() && k < b1.len() && a1.subrange(0, k) == b1.subrange(0, k) && (#[trigger] a1[k] as u32) < (b1[k] as u32);
            assert forall|t: int| 0 <= t < k + 1 implies a[t] == b[t] by {
                if t > 0 {
                    assert(a1.subrange(0, k)[t - 1] == b1.subrange(0, k)[t - 1]);
                }
            }
            assert(a.subrange(0, k + 1) =~= b.subrange(0, k + 1));
            assert(a[k + 1] == a1[k]);
        }
        if exists|k: int| 0 <= k < a.len() && k < b.len() && a.subrange(0, k) == b.subrange(0, k) && (#[trigger] a[k] as u32) < (b[k] as u32) {
            let k = choose|k: int| 0 <= k < a.len() && k < b.len() && a.subrange(0, k) == b.subrange(0, k) && (#[trigger] a[k] as u32) < (b[k] as u32);
            assert(k > 0);
            assert(a1.subrange(0, k - 1) =~= b1.subrange(0, k - 1)) by {
                assert forall|t: int| 0 <= t < k - 1 implies a1[t] == b1[t] by {
                    assert(a.subrange(0, k)[t + 1] == b.subrange(0, k)[t + 1]);
                }
            }
            assert(a1[k - 1] == a[k]);
        }
    }
}

/// The sections and the name-sorted named exports of a PE image.
pub open spec fn parse_pe_spec(b: Seq<u8>) -> Result<(Seq<SectionView>, Seq<ExportView>), PeError> {
    match pe_headers(b) {
        Err(e) => Err(e),
        Ok((table, count, export_rva)) => match section_table(b, table, count) {
            Err(e) => Err(e),
            Ok(ss) => {
                if export_rva == 0 {
                    Ok((ss, Seq::empty()))
                } else {
                    match export_tables(b, ss, export_rva) {
                        Err(e) => Err(e),
                        Ok(t) => match export_list(b, ss, t, t.name_count as nat) {
                            Err(e) => Err(e),
                            Ok(es) => Ok((ss, sort_by_name(es))),
                        },
                    }
                }
            },
        },
    }
}


// ---------------------------------------------------------------------
// The reader

fn pe_headers_exec(b: &[u8]) -> (r: Result<(u64, u16, u32), PeError>)
    ensures
        match r {
            Ok((t, c, x)) => pe_headers(b@) == Ok::<(int, nat, u32), PeError>((t as int, c as nat, x)),
            Err(e) => pe_headers(b@) == Err::<(int, nat, u32), PeError>(e),
        },
{
    if !(b.len() >= 2 && b[0] == 0x4d && b[1] == 0x5a) {
        return Err(PeError::NotPe);
    }
    let pe32 = u32_at_exec(b, 0x3c)?;
    let pe = pe32 as u64;
    let len = b.len() as u64;
    if !(4 <= len && pe <= len - 4) {
        return Err(PeError::NoSignature);
    }
    let p = pe as usize;
    if !(b[p] == 0x50 && b[p + 1] == 0x45 && b[p + 2] == 0 && b[p + 3] == 0) {
        return Err(PeError::NoSignature);
    }
    let count = u16_at_exec(b, pe + 6)?;
    let optional_size = u16_at_exec(b, pe + 20)?;
    let opt = pe + 24;
    let magic = u16_at_exec(b, opt)?;
    if magic != 0x20b && magic != 0x10b {
        return Err(PeError::UnsupportedMagic(magic));
    }
    let dd = if magic == 0x20b { opt + 112 } else { opt + 96 };
    let export_rva = u32_at_exec(b, dd)?;
    let _export_size = u32_at_exec(b, dd + 4)?;
    Ok((opt + optional_size as u64, count, export_rva))
}

fn section_header_exec(b: &[u8], off: u64) -> (r: Result<Section, PeError>)
    requires
        off <= 0x1_0000_0000 * 4,
    ensures
        match r {
            Ok(s) => section_header(b@, off as int) == Ok::<SectionView, PeError>(s@),
            Err(e) => section_header(b@, off as int) == Err::<SectionView, PeError>(e),
        },
{
    let len = b.len() as u64;
    if !(off <= len && 8 <= len - off) {
        return Err(PeError::SectionTableTruncated);
    }
    let start = off as usize;
    let mut end = start;
    while end < start + 8 && b[end] != 0
        invariant
            start <= end <= start + 8,
            start + 8 <= b.len(),
            forall|k: int| start <= k < end ==> b@[k] != 0,
        decreases start + 8 - end,
    {
        end = end + 1;
    }
    proof {
        if end < start + 8 {
            lemma_nul_from(b@, start as int, end as int);
        } else {
            lemma_nul_from_at_least(b@, start as int, end as int);
        }
    }
    let name = lossy_string(&b[start..end]);
    let virtual_size = u32_at_exec(b, off + 8)?;
    let virtual_address = u32_at_exec(b, off + 12)?;
    let raw_size = u32_at_exec(b, off + 16)?;
    let raw_offset = u32_at_exec(b, off + 20)?;
    Ok(Section { name, virtual_address, virtual_size, raw_offset, raw_size })
}

proof fn lemma_nul_from_at_least(b: Seq<u8>, from: int, i: int)
    requires
        0 <= from <= i <= b.len(),
        forall|k: int| from <= k < i ==> b[k] != 0,
    ensures
        nul_from(b, from) >= i,
    decreases i - from,
{
    if from < i {
        assert(b[from] != 0);
        lemma_nul_from_at_least(b, from + 1, i);
    } else {
        lemma_nul_from_ge(b, from);
    }
}

proof fn lemma_nul_from_ge(b: Seq<u8>, from: int)
    requires
        0 <= from <= b.len(),
    ensures
        from <= nul_from(b, from) <= b.len(),
    decreases b.len() - from,
{
    if from < b.len() && b[from] != 0 {
        lemma_nul_from_ge(b, from + 1);
    }
}

fn export_tables_exec(b: &[u8], sections: &Vec<Section>, export_rva: u32) -> (r: Result<(u32, u32, u32, u64, u64, u64), PeError>)
    ensures
        match r {
            Ok((base, fc, nc, fo, no, oo)) => export_tables(b@, section_views(sections@), export_rva) == Ok::<ExportTables, PeError>(ExportTables {
                base,
                function_count: fc,
                name_count: nc,
                functions: fo as int,
                names: no as int,
                ordinals: oo as int,
            }) && fo <= u32::MAX && no <= u32::MAX && oo <= u32::MAX,
            Err(e) => export_tables(b@, section_views(sections@), export_rva) == Err::<ExportTables, PeError>(e),
        },
{
    let eo = match rva_to_offset(export_rva, sections) {
        None => return Err(PeError::UnmappedExportRva(export_rva)),
        Some(o) => o as u64,
    };
    proof {
        lemma_rva_offset_bound(section_views(sections@), export_rva);
    }
    let base = u32_at_exec(b, eo + 16)?;
    let fc = u32_at_exec(b, eo + 20)?;
    let nc = u32_at_exec(b, eo + 24)?;
    let frva = u32_at_exec(b, eo + 28)?;
    let nrva = u32_at_exec(b, eo + 32)?;
    let orva = u32_at_exec(b, eo + 36)?;
    proof {
        lemma_rva_offset_bound(section_views(sections@), frva);
        lemma_rva_offset_bound(section_views(sections@), nrva);
        lemma_rva_offset_bound(section_views(sections@), orva);
    }
    let fo = match rva_to_offset(frva, sections) {
        None => return Err(PeError::UnmappedFunctionTable),
        Some(o) => o as u64,
    };
    let no = match rva_to_offset(nrva, sections) {
        None => return Err(PeError::UnmappedNameTable),
        Some(o) => o as u64,
    };
    let oo = match rva_to_offset(orva, sections) {
        None => return Err(PeError::UnmappedOrdinalTable),
        Some(o) => o as u64,
    };
    Ok((base, fc, nc, fo, no, oo))
}

proof fn lemma_rva_offset_bound(ss: Seq<SectionView>, rva: u32)
    ensures
        rva_offset(ss, rva) matches Some(o) ==> 0 <= o <= u32::MAX,
    decreases ss.len(),
{
    if ss.len() > 0 {
        lemma_rva_offset_bound(ss.drop_first(), rva);
    }
}

fn export_entry_exec(
    b: &[u8],
    sections: &Vec<Section>,
    base: u32,
    fc: u32,
    funcs: u64,
    names: u64,
    ords: u64,
    i: u64,
) -> (r: Result<Option<Export>, PeError>)
    requires
        funcs <= u32::MAX,
        names <= u32::MAX,
        ords <= u32::MAX,
        i <= u32::MAX,
    ensures
        ({
            let t = ExportTables { base, function_count: fc, name_count: 0, functions: funcs as int, names: names as int, ordinals: ords as int };
            match r {
                Ok(None) => export_entry(b@, section_views(sections@), t, i as int) == Ok::<Option<ExportView>, PeError>(None),
                Ok(Some(x)) => export_entry(b@, section_views(sections@), t, i as int) == Ok::<Option<ExportView>, PeError>(Some(x@)),
                Err(e) => export_entry(b@, section_views(sections@), t, i as int) == Err::<Option<ExportView>, PeError>(e),
            }
        }),
{
    let name_rva = u32_at_exec(b, names + i * 4)?;
    let name_off = match rva_to_offset(name_rva, sections) {
        None => return Err(PeError::UnmappedExportName(name_rva)),
        Some(o) => o as u64,
    };
    let name = match c_string_at_exec(b, name_off) {
        Ok(n) => n,
        Err(e) => return Err(e),
    };
    let oi = u16_at_exec(b, ords + i * 2)?;
    if oi as u32 >= fc {
        return Ok(None);
    }
    let rva = u32_at_exec(b, funcs + (oi as u64) * 4)?;
    let ordinal = (base.saturating_add(oi as u32) % 65536) as u16;
    Ok(Some(Export { name, rva, ordinal }))
}

proof fn lemma_export_entry_independent(b: Seq<u8>, ss: Seq<SectionView>, t1: ExportTables, t2: ExportTables, i: int)
    requires
        t1.base == t2.base,
        t1.function_count == t2.function_count,
        t1.functions == t2.functions,
        t1.names == t2.names,
        t1.ordinals == t2.ordinals,
    ensures
        export_entry(b, ss, t1, i) == export_entry(b, ss, t2, i),
{
}

// ---------------------------------------------------------------------
// Sorting exports by name

fn name_le_exec(a: &Vec<char>, b: &Vec<char>) -> (r: bool)
    ensures
        r == name_le(a@, b@),
{
    let mut i: usize = 0;
    assert(a@.subrange(0, a@.len() as int) =~= a@);
    assert(b@.subrange(0, b@.len() as int) =~= b@);
    while i < a.len() && i < b.len() && a[i] == b[i]
        invariant
            i <= a.len(),
            i <= b.len(),
            forall|k: int| 0 <= k < i ==> a@[k] == b@[k],
            name_le(a@, b@) == name_le(a@.subrange(i as int, a@.len() as int), b@.subrange(i as int, b@.len() as int)),
        decreases a.len() - i,
    {
        proof {
            let sa = a@.subrange(i as int, a@.len() as int);
            let sb = b@.subrange(i as int, b@.len() as int);
            assert(sa.drop_first() =~= a@.subrange(i + 1, a@.len() as int));
            assert(sb.drop_first() =~= b@.subrange(i + 1, b@.len() as int));
        }
        i = i + 1;
    }
    if i == a.len() {
        true
    } else if i == b.len() {
        false
    } else {
        (a[i] as u32) < (b[i] as u32)
    }
}

proof fn lemma_insert_by_name(s: Seq<ExportView>, e: ExportView, j: int)
    requires
        0 <= j <= s.len(),
        forall|k: int| j <= k < s.len() ==> !name_le(#[trigger] s[k].name, e.name),
        j == 0 || name_le(s[j - 1].name, e.name),
    ensures
        insert_by_name(s, e) == s.insert(j, e),
    decreases s.len(),
{
    if s.len() == 0 {
        assert(s.insert(0, e) =~= seq![e]);
    } else if j == s.len() {
        assert(s.insert(j, e) =~= s.push(e));
    } else {
        let t = s.drop_last();
        assert forall|k: int| j <= k < t.len() implies !name_le(#[trigger] t[k].name, e.name) by {
            assert(t[k] == s[k]);
        }
        if j > 0 {
            assert(t[j - 1] == s[j - 1]);
        }
        lemma_insert_by_name(t, e, j);
        assert(t.insert(j, e).push(s.last()) =~= s.insert(j, e));
    }
}

fn insert_export_sorted(sorted: &mut Vec<Export>, e: Export)
    ensures
        export_views(final(sorted)@) == insert_by_name(export_views(old(sorted)@), e@),
{
    let ghost vs = export_views(sorted@);
    let en = chars_of(e.name.as_str());
    let mut j = sorted.len();
    while j > 0 && !name_le_exec(&chars_of(sorted[j - 1].name.as_str()), &en)
        invariant
            j <= sorted.len(),
            vs == export_views(sorted@),
            en@ == e.name@,
            forall|k: int| j <= k < vs.len() ==> !name_le(#[trigger] vs[k].name, e@.name),
        decreases j,
    {
        j = j - 1;
    }
    proof {
        lemma_insert_by_name(vs, e@, j as int);
    }
    sorted.insert(j, e);
    assert(export_views(sorted@) =~= vs.insert(j as int, e@));
}

/// Sorts exports by name, keeping equal names in their original order.
pub fn sort_exports_by_name(exports: &Vec<Export>) -> (sorted: Vec<Export>)
    ensures
        export_views(sorted@) == sort_by_name(export_views(exports@)),
{
    let ghost src = export_views(exports@);
    let mut sorted: Vec<Export> = Vec::new();
    for i in 0..exports.len()
        invariant
            src == export_views(exports@),
            export_views(sorted@) == sort_by_name(src.take(i as int)),
    {
        let e = &exports[i];
        let x = Export { name: e.name.clone(), rva: e.rva, ordinal: e.ordinal };
        proof {
            assert(src.take(i + 1).drop_last() =~= src.take(i as int));
            assert(src.take(i + 1).last() == src[i as int]);
        }
        insert_export_sorted(&mut sorted, x);
    }
    assert(src.take(exports.len() as int) =~= src);
    sorted
}


/// The parsed image: its section headers, and its named exports sorted by name.
pub struct PeImage {
    pub sections: Vec<Section>,
    pub exports: Vec<Export>,
}

fn read_sections(bytes: &[u8], table: u64, count: u16) -> (r: Result<Vec<Section>, PeError>)
    requires
        table <= 0x1_0000_0000 * 2,
    ensures
        match r {
            Ok(v) => section_table(bytes@, table as int, count as nat) == Ok::<Seq<SectionView>, PeError>(section_views(v@)),
            Err(e) => section_table(bytes@, table as int, count as nat) == Err::<Seq<SectionView>, PeError>(e),
        },
{
    let mut sections: Vec<Section> = Vec::new();
    let mut index: u16 = 0;
    assert(section_views(sections@) =~= Seq::<SectionView>::empty());
    while index < count
        invariant
            index <= count,
            table <= 0x1_0000_0000 * 2,
            section_table(bytes@, table as int, index as nat) == Ok::<Seq<SectionView>, PeError>(section_views(sections@)),
        decreases count - index,
    {
        let off = table + (index as u64) * 40;
        let ghost before = section_views(sections@);
        let sec = match section_header_exec(bytes, off) {
            Ok(sec) => sec,
            Err(e) => {
                proof {
                    assert(section_table(bytes@, table as int, (index + 1) as nat) == Err::<Seq<SectionView>, PeError>(e));
                    lemma_section_table_err(bytes@, table as int, (index + 1) as nat, count as nat);
                }
                return Err(e);
            }
        };
        sections.push(sec);
        proof {
            assert(section_views(sections@) =~= before.push(sec@));
            assert(section_table(bytes@, table as int, (index + 1) as nat) == Ok::<Seq<SectionView>, PeError>(before.push(sec@)));
        }
        index = index + 1;
    }
    Ok(sections)
}

fn read_exports(bytes: &[u8], sections: &Vec<Section>, base: u32, fc: u32, nc: u32, funcs: u64, names: u64, ords: u64) -> (r: Result<Vec<Export>, PeError>)
    requires
        funcs <= u32::MAX,
        names <= u32::MAX,
        ords <= u32::MAX,
    ensures
        ({
            let t = ExportTables { base, function_count: fc, name_count: nc, functions: funcs as int, names: names as int, ordinals: ords as int };
            match r {
                Ok(v) => export_list(bytes@, section_views(sections@), t, nc as nat) == Ok::<Seq<ExportView>, PeError>(export_views(v@)),
                Err(e) => export_list(bytes@, section_views(sections@), t, nc as nat) == Err::<Seq<ExportView>, PeError>(e),
            }
        }),
{
    let ghost ss = section_views(sections@);
    let ghost t = ExportTables { base, function_count: fc, name_count: nc, functions: funcs as int, names: names as int, ordinals: ords as int };
    let mut exports: Vec<Export> = Vec::new();
    assert(export_views(exports@) =~= Seq::<ExportView>::empty());
    let mut i: u32 = 0;
    while i < nc
        invariant
            i <= nc,
            ss == section_views(sections@),
            t == (ExportTables { base, function_count: fc, name_count: nc, functions: funcs as int, names: names as int, ordinals: ords as int }),
            funcs <= u32::MAX,
            names <= u32::MAX,
            ords <= u32::MAX,
            export_list(bytes@, ss, t, i as nat) == Ok::<Seq<ExportView>, PeError>(export_views(exports@)),
        decreases nc - i,
    {
        let ghost before = export_views(exports@);
        let entry = export_entry_exec(bytes, sections, base, fc, funcs, names, ords, i as u64);
        proof {
            let t0 = ExportTables { base, function_count: fc, name_count: 0, functions: funcs as int, names: names as int, ordinals: ords as int };
            lemma_export_entry_independent(bytes@, ss, t0, t, i as int);
        }
        match entry {
            Err(e) => {
                proof {
                    assert(export_list(bytes@, ss, t, (i + 1) as nat) == Err::<Seq<ExportView>, PeError>(e));
                    lemma_export_list_err(bytes@, ss, t, (i + 1) as nat, nc as nat);
                }
                return Err(e);
            }
            Ok(None) => {
                assert(export_list(bytes@, ss, t, (i + 1) as nat) == Ok::<Seq<ExportView>, PeError>(before));
            }
            Ok(Some(x)) => {
                exports.push(x);
                proof {
                    assert(export_views(exports@) =~= before.push(x@));
                    assert(export_list(bytes@, ss, t, (i + 1) as nat) == Ok::<Seq<ExportView>, PeError>(before.push(x@)));
                }
            }
        }
        i = i + 1;
    }
    Ok(exports)
}

/// Reads the section table and the named exports of a PE image.
pub fn parse_pe(bytes: &[u8]) -> (r: Result<PeImage, PeError>)
    ensures
        match r {
            Ok(img) => parse_pe_spec(bytes@) == Ok::<(Seq<SectionView>, Seq<ExportView>), PeError>((
                section_views(img.sections@),
                export_views(img.exports@),
            )),
            Err(e) => parse_pe_spec(bytes@) == Err::<(Seq<SectionView>, Seq<ExportView>), PeError>(e),
        },
{
    let (table, count, export_rva) = pe_headers_exec(bytes)?;
    proof {
        lemma_pe_headers_bound(bytes@);
    }
    let sections = read_sections(bytes, table, count)?;
    if export_rva == 0 {
        let exports: Vec<Export> = Vec::new();
        assert(export_views(exports@) =~= Seq::<ExportView>::empty());
        return Ok(PeImage { sections, exports });
    }
    let (base, fc, nc, funcs, names, ords) = export_tables_exec(bytes, &sections, export_rva)?;
    let exports = read_exports(bytes, &sections, base, fc, nc, funcs, names, ords)?;
    let sorted = sort_exports_by_name(&exports);
    Ok(PeImage { sections, exports: sorted })
}

proof fn lemma_pe_headers_bound(b: Seq<u8>)
    ensures
        pe_headers(b) matches Ok((t, c, x)) ==> 0 <= t <= 0x1_0000_0000 * 2,
{
}

proof fn lemma_section_table_err(b: Seq<u8>, table: int, k: nat, n: nat)
    requires
        k <= n,
        section_table(b, table, k) is Err,
    ensures
        section_table(b, table, n) == section_table(b, table, k),
    decreases n - k,
{
    if k < n {
        lemma_section_table_err(b, table, k, (n - 1) as nat);
    }
}

proof fn lemma_export_list_err(b: Seq<u8>, ss: Seq<SectionView>, t: ExportTables, k: nat, n: nat)
    requires
        k <= n,
        export_list(b, ss, t, k) is Err,
    ensures
        export_list(b, ss, t, n) == export_list(b, ss, t, k),
    decreases n - k,
{
    if k < n {
        lemma_export_list_err(b, ss, t, k, (n - 1) as nat);
    }
}


// ---------------------------------------------------------------------
// Embedded strings

/// A printable ASCII byte.
pub open spec fn printable(b: u8) -> bool {
    0x20 <= b && b <= 0x7e
}

/// The report line for an interesting ASCII string found at `begin`.
pub open spec fn ascii_line(begin: int, text: Seq<char>) -> Seq<char> {
    "ASCII @ 0x"@ + hex_padded(begin as nat, 8) + ": "@ + text
}

/// Scanning `b[..i]` for runs of printable bytes: the report lines so far
/// and where the current run started.
pub open spec fn ascii_scan(b: Seq<u8>, i: nat) -> (Seq<Seq<char>>, Option<int>)
    decreases i,
{
    if i == 0 || i > b.len() {
        (Seq::empty(), None)
    } else {
        let (out, start) = ascii_scan(b, (i - 1) as nat);
        let index = i - 1;
        let p = printable(b[index]);
        match start {
            None => if p { (out, Some(index)) } else { (out, None) },
            Some(begin) => if p {
                (out, Some(begin))
            } else {
                let text = utf8_lossy(b.subrange(begin, index));
                if index - begin >= 4 && is_interesting(text) {
                    (out.push(ascii_line(begin, text)), None)
                } else {
                    (out, None)
                }
            },
        }
    }
}

/// The report lines for every run of at least four printable ASCII bytes
/// whose text looks interesting, in file order.
pub open spec fn ascii_strings(b: Seq<u8>) -> Seq<Seq<char>> {
    let (out, start) = ascii_scan(b, b.len());
    match start {
        Some(begin) => {
            let text = utf8_lossy(b.subrange(begin, b.len() as int));
            if b.len() - begin >= 4 && is_interesting(text) {
                out.push(ascii_line(begin, text))
            } else {
                out
            }
        },
        None => out,
    }
}

/// The views of a list of strings.
pub open spec fn string_views(v: Seq<String>) -> Seq<Seq<char>> {
    v.map_values(|s: String| s@)
}

fn hex_line(prefix: &str, begin: usize, text: &Vec<char>) -> (s: String)
    ensures
        s@ == prefix@ + hex_padded(begin as nat, 8) + ": "@ + text@,
{
    let mut v: Vec<char> = Vec::new();
    push_str(&mut v, prefix);
    push_hex_padded(&mut v, begin as u64, 8);
    push_str(&mut v, ": ");
    push_all(&mut v, text);
    string_of(&v)
}

proof fn lemma_ascii_scan_start(b: Seq<u8>, i: nat)
    requires
        i <= b.len(),
    ensures
        ascii_scan(b, i).1 matches Some(begin) ==> 0 <= begin < i,
    decreases i,
{
    if i > 0 {
        lemma_ascii_scan_start(b, (i - 1) as nat);
    }
}

/// The interesting printable-ASCII strings embedded in a file.
pub fn collect_ascii_strings(bytes: &[u8]) -> (r: Vec<String>)
    ensures
        string_views(r@) == ascii_strings(bytes@),
{
    let mut result: Vec<String> = Vec::new();
    let mut start: Option<usize> = None;
    assert(string_views(result@) =~= Seq::<Seq<char>>::empty());
    for index in 0..bytes.len()
        invariant
            string_views(result@) == ascii_scan(bytes@, index as nat).0,
            match start {
                Some(b) => ascii_scan(bytes@, index as nat).1 == Some(b as int),
                None => ascii_scan(bytes@, index as nat).1 is None,
            },
    {
        proof {
            lemma_ascii_scan_start(bytes@, index as nat);
        }
        let byte = bytes[index];
        let p = 0x20 <= byte && byte <= 0x7e;
        let ghost before = string_views(result@);
        match start {
            None => {
                if p {
                    start = Some(index);
                }
            }
            Some(begin) => {
                if !p {
                    if index - begin >= 4 {
                        let text = lossy_string(&bytes[begin..index]);
                        let chars = chars_of(text.as_str());
                        if interesting_chars(&chars) {
                            let line = hex_line("ASCII @ 0x", begin, &chars);
                            result.push(line);
                            assert(string_views(result@) =~= before.push(line@));
                        }
                    }
                    start = None;
                }
            }
        }
    }
    if let Some(begin) = start {
        proof {
            lemma_ascii_scan_start(bytes@, bytes@.len());
        }
        if bytes.len() - begin >= 4 {
            let text = lossy_string(&bytes[begin..bytes.len()]);
            let chars = chars_of(text.as_str());
            if interesting_chars(&chars) {
                let ghost before = string_views(result@);
                let line = hex_line("ASCII @ 0x", begin, &chars);
                result.push(line);
                assert(string_views(result@) =~= before.push(line@));
            }
        }
    }
    result
}

/// The report line for an interesting UTF-16 string found at `begin`.
pub open spec fn utf16_line(begin: int, text: Seq<char>) -> Seq<char> {
    "UTF16 @ 0x"@ + hex_padded(begin as nat, 8) + ": "@ + text
}

/// The code unit at byte `index` is a printable ASCII character.
pub open spec fn printable_unit(b: Seq<u8>, index: int) -> bool {
    b[index + 1] == 0 && printable(b[index])
}

/// Scanning the code units at `alignment`, `alignment + 2`, ... (the first
/// `n` of them) for runs of printable ASCII characters: the report lines so
/// far, where the current run started, and its text.
pub open spec fn utf16_scan(b: Seq<u8>, alignment: int, n: nat) -> (Seq<Seq<char>>, Option<int>, Seq<char>)
    decreases n,
{
    if n == 0 {
        (Seq::empty(), None, Seq::empty())
    } else {
        let (out, start, text) = utf16_scan(b, alignment, (n - 1) as nat);
        let index = alignment + 2 * (n - 1);
        if printable_unit(b, index) {
            let text = if start is None { Seq::empty() } else { text };
            let start = if start is None { Some(index) } else { start };
            (out, start, text.push(b[index] as char))
        } else {
            match start {
                Some(begin) => {
                    if text.len() >= 4 && is_interesting(text) {
                        (out.push(utf16_line(begin, text)), None, Seq::empty())
                    } else {
                        (out, None, Seq::empty())
                    }
                },
                None => (out, None, text),
            }
        }
    }
}

/// The number of code units at `alignment` that fit in the file.
pub open spec fn unit_count(len: int, alignment: int) -> nat {
    if alignment + 1 < len { ((len - alignment - 2) / 2 + 1) as nat } else { 0 }
}

/// The report lines for the code units at one alignment.
pub open spec fn utf16_strings_at(b: Seq<u8>, alignment: int) -> Seq<Seq<char>> {
    let (out, start, text) = utf16_scan(b, alignment, unit_count(b.len() as int, alignment));
    match start {
        Some(begin) => if text.len() >= 4 && is_interesting(text) {
            out.push(utf16_line(begin, text))
        } else {
            out
        },
        None => out,
    }
}

/// The report lines for every run of at least four printable ASCII
/// characters stored as UTF-16 (even alignment first, then odd) whose text
/// looks interesting.
pub open spec fn utf16_strings(b: Seq<u8>) -> Seq<Seq<char>> {
    utf16_strings_at(b, 0) + utf16_strings_at(b, 1)
}

fn utf16_strings_exec(bytes: &[u8], alignment: usize) -> (r: Vec<String>)
    requires
        alignment <= 1,
    ensures
        string_views(r@) == utf16_strings_at(bytes@, alignment as int),
{
    let mut result: Vec<String> = Vec::new();
    let mut start: Option<usize> = None;
    let mut text: Vec<char> = Vec::new();
    let mut index = alignment;
    let mut n: usize = 0;
    assert(string_views(result@) =~= Seq::<Seq<char>>::empty());
    while index < bytes.len() && 1 < bytes.len() - index
        invariant
            alignment <= 1,
            index == alignment + 2 * n,
            index <= bytes.len() + 1,
            n <= unit_count(bytes@.len() as int, alignment as int),
            index + 1 < bytes@.len() ==> n < unit_count(bytes@.len() as int, alignment as int),
            !(index + 1 < bytes@.len()) ==> n == unit_count(bytes@.len() as int, alignment as int),
            string_views(result@) == utf16_scan(bytes@, alignment as int, n as nat).0,
            text@ == utf16_scan(bytes@, alignment as int, n as nat).2,
            match start {
                Some(b) => utf16_scan(bytes@, alignment as int, n as nat).1 == Some(b as int) && b < index,
                None => utf16_scan(bytes@, alignment as int, n as nat).1 is None,
            },
        decreases bytes.len() - index,
    {
        let lo = bytes[index];
        let hi = bytes[index + 1];
        let ghost before = string_views(result@);
        if hi == 0 && 0x20 <= lo && lo <= 0x7e {
            if start.is_none() {
                start = Some(index);
                text = Vec::new();
            }
            text.push(lo as char);
        } else {
            match start {
                Some(begin) => {
                    if text.len() >= 4 && interesting_chars(&text) {
                        let line = hex_line("UTF16 @ 0x", begin, &text);
                        result.push(line);
                        assert(string_views(result@) =~= before.push(line@));
                    }
                    start = None;
                    text = Vec::new();
                }
                None => {}
            }
        }
        index = index + 2;
        n = n + 1;
    }
    if let Some(begin) = start {
        if text.len() >= 4 && interesting_chars(&text) {
            let ghost before = string_views(result@);
            let line = hex_line("UTF16 @ 0x", begin, &text);
            result.push(line);
            assert(string_views(result@) =~= before.push(line@));
        }
    }
    result
}

/// The interesting strings stored as UTF-16 in a file.
pub fn collect_utf16_ascii_strings(bytes: &[u8]) -> (r: Vec<String>)
    ensures
        string_views(r@) == utf16_strings(bytes@),
{
    let mut even = utf16_strings_exec(bytes, 0);
    let mut odd = utf16_strings_exec(bytes, 1);
    let ghost a = string_views(even@);
    let ghost b = string_views(odd@);
    even.append(&mut odd);
    assert(string_views(even@) =~= a + b);
    even
}


// ---------------------------------------------------------------------
// Hex dump

/// The bytes ` xx` (two lower-case hex digits each) for `b[lo..hi]`.
pub open spec fn hex_bytes(b: Seq<u8>, lo: int, hi: int) -> Seq<char>
    decreases hi - lo,
{
    if lo >= hi {
        Seq::empty()
    } else {
        hex_bytes(b, lo, hi - 1) + " "@ + hex_padded(b[hi - 1] as nat, 2)
    }
}

/// The dump lines from `cursor` to `end`, 16 bytes per line, each line the
/// offset in eight hex digits, a colon, and the bytes.
pub open spec fn hex_dump_lines(b: Seq<u8>, cursor: int, end: int) -> Seq<char>
    decreases end - cursor,
{
    if cursor >= end {
        Seq::empty()
    } else {
        let line_end = if cursor + 16 < end { cursor + 16 } else { end };
        hex_padded(cursor as nat, 8) + ":"@ + hex_bytes(b, cursor, line_end) + "\n"@
            + hex_dump_lines(b, line_end, end)
    }
}

/// A hex dump of up to `length` bytes from `offset`, cut at the file's end.
pub open spec fn hex_dump_spec(b: Seq<u8>, offset: int, length: int) -> Seq<char> {
    let end = if offset + length < b.len() { offset + length } else { b.len() as int };
    hex_dump_lines(b, offset, end)
}

/// Dumps up to `length` bytes from `offset` in hexadecimal.
pub fn hex_dump(bytes: &[u8], offset: usize, length: usize) -> (s: String)
    ensures
        s@ == hex_dump_spec(bytes@, offset as int, length as int),
{
    let end: usize = if length < bytes.len() && offset < bytes.len() - length { offset + length } else { bytes.len() };
    let mut out: Vec<char> = Vec::new();
    let mut cursor = offset;
    assert(hex_dump_spec(bytes@, offset as int, length as int) == hex_dump_lines(bytes@, offset as int, end as int));
    while cursor < end
        invariant
            end <= bytes.len(),
            out@ + hex_dump_lines(bytes@, cursor as int, end as int) == hex_dump_spec(bytes@, offset as int, length as int),
        decreases end - cursor,
    {
        let line_end = if end - cursor > 16 { cursor + 16 } else { end };
        let ghost before = out@;
        push_hex_padded(&mut out, cursor as u64, 8);
        push_str(&mut out, ":");
        let ghost mid = out@;
        let mut k = cursor;
        while k < line_end
            invariant
                cursor <= k <= line_end <= end <= bytes.len(),
                out@ == mid + hex_bytes(bytes@, cursor as int, k as int),
            decreases line_end - k,
        {
            push_str(&mut out, " ");
            push_hex_padded(&mut out, bytes[k] as u64, 2);
            k = k + 1;
        }
        push_str(&mut out, "\n");
        assert(out@ =~= before + (hex_padded(cursor as nat, 8) + ":"@ + hex_bytes(bytes@, cursor as int, line_end as int) + "\n"@));
        cursor = line_end;
    }
    assert(hex_dump_lines(bytes@, cursor as int, end as int) =~= Seq::<char>::empty());
    assert(out@ =~= hex_dump_spec(bytes@, offset as int, length as int));
    string_of(&out)
}


// ---------------------------------------------------------------------
// Sorted, distinct report lines

/// Inserts `x` into the strictly increasing `s`, unless it is already there.
pub open spec fn insert_unique(s: Seq<Seq<char>>, x: Seq<char>) -> Seq<Seq<char>>
    decreases s.len(),
{
    if s.len() == 0 {
        seq![x]
    } else if s.last() == x {
        s
    } else if name_le(s.last(), x) {
        s.push(x)
    } else {
        insert_unique(s.drop_last(), x).push(s.last())
    }
}

/// `s` sorted with duplicates removed (`sort` then `dedup`).
pub open spec fn sort_unique(s: Seq<Seq<char>>) -> Seq<Seq<char>>
    decreases s.len(),
{
    if s.len() == 0 {
        s
    } else {
        insert_unique(sort_unique(s.drop_last()), s.last())
    }
}

proof fn lemma_name_le_refl(a: Seq<char>)
    ensures
        name_le(a, a),
    decreases a.len(),
{
    if a.len() > 0 {
        lemma_name_le_refl(a.drop_first());
    }
}

proof fn lemma_insert_unique(s: Seq<Seq<char>>, x: Seq<char>, j: int)
    requires
        0 <= j <= s.len(),
        forall|k: int| j <= k < s.len() ==> #[trigger] s[k] != x && !name_le(s[k], x),
        j == 0 || name_le(s[j - 1], x),
    ensures
        j > 0 && s[j - 1] == x ==> insert_unique(s, x) == s,
        !(j > 0 && s[j - 1] == x) ==> insert_unique(s, x) == s.insert(j, x),
    decreases s.len(),
{
    if s.len() == 0 {
        assert(s.insert(0, x) =~= seq![x]);
    } else if j == s.len() {
        assert(s.insert(j, x) =~= s.push(x));
    } else {
        let t = s.drop_last();
        assert forall|k: int| j <= k < t.len() implies #[trigger] t[k] != x && !name_le(t[k], x) by {
            assert(t[k] == s[k]);
        }
        if j > 0 {
            assert(t[j - 1] == s[j - 1]);
        }
        lemma_insert_unique(t, x, j);
        if j > 0 && s[j - 1] == x {
            assert(t.push(s.last()) =~= s);
        } else {
            assert(t.insert(j, x).push(s.last()) =~= s.insert(j, x));
        }
    }
}

fn insert_unique_exec(sorted: &mut Vec<String>, x: String)
    ensures
        string_views(final(sorted)@) == insert_unique(string_views(old(sorted)@), x@),
{
    let ghost vs = string_views(sorted@);
    let xc = chars_of(x.as_str());
    let mut j = sorted.len();
    loop
        invariant
            j <= sorted.len(),
            vs == string_views(sorted@),
            xc@ == x@,
            forall|k: int| j <= k < vs.len() ==> #[trigger] vs[k] != x@ && !name_le(vs[k], x@),
        ensures
            j <= sorted.len(),
            vs == string_views(sorted@),
            forall|k: int| j <= k < vs.len() ==> #[trigger] vs[k] != x@ && !name_le(vs[k], x@),
            j == 0 || name_le(vs[j - 1], x@),
            j > 0 ==> vs[j - 1] != x@,
        decreases j,
    {
        if j == 0 {
            break;
        }
        let cur = chars_of(sorted[j - 1].as_str());
        if chars_equal(&cur, &xc) {
            proof {
                lemma_name_le_refl(x@);
                lemma_insert_unique(vs, x@, j as int);
            }
            return;
        }
        if name_le_exec(&cur, &xc) {
            break;
        }
        j = j - 1;
    }
    proof {
        lemma_insert_unique(vs, x@, j as int);
    }
    sorted.insert(j, x);
    assert(string_views(sorted@) =~= vs.insert(j as int, x@));
}

/// Sorts report lines and removes duplicates.
pub fn sort_unique_strings(v: &Vec<String>) -> (r: Vec<String>)
    ensures
        string_views(r@) == sort_unique(string_views(v@)),
{
    let ghost src = string_views(v@);
    let mut r: Vec<String> = Vec::new();
    assert(string_views(r@) =~= sort_unique(src.take(0)));
    for i in 0..v.len()
        invariant
            src == string_views(v@),
            string_views(r@) == sort_unique(src.take(i as int)),
    {
        proof {
            assert(src.take(i + 1).drop_last() =~= src.take(i as int));
            assert(src.take(i + 1).last() == src[i as int]);
        }
        insert_unique_exec(&mut r, v[i].clone());
    }
    assert(src.take(v.len() as int) =~= src);
    r
}

// ---------------------------------------------------------------------
// The report

/// The concatenation of `f` applied to each item, in order.
pub open spec fn concat_lines<A>(items: Seq<A>, f: spec_fn(A) -> Seq<char>) -> Seq<char>
    decreases items.len(),
{
    if items.len() == 0 {
        Seq::empty()
    } else {
        concat_lines(items.drop_last(), f) + f(items.last())
    }
}

/// `s` left aligned in a field of `width` characters (`{:<width}`).
pub open spec fn pad_right(s: Seq<char>, width: nat) -> Seq<char> {
    if s.len() >= width { s } else { s + Seq::new((width - s.len()) as nat, |i: int| ' ') }
}

/// The report line of a section.
pub open spec fn section_line(s: SectionView) -> Seq<char> {
    "  "@ + pad_right(s.name, 8) + " RVA=0x"@ + hex_padded(s.virtual_address as nat, 8) + " virtual=0x"@
        + hex(s.virtual_size as nat) + " raw_off=0x"@ + hex_padded(s.raw_offset as nat, 8) + " raw_size=0x"@
        + hex(s.raw_size as nat) + "\n"@
}

/// The report line of an export.
pub open spec fn export_line(e: ExportView) -> Seq<char> {
    "  ordinal="@ + decimal(e.ordinal as nat) + " RVA=0x"@ + hex_padded(e.rva as nat, 8) + " "@ + e.name + "\n"@
}

/// The first section covering `rva`.
pub open spec fn covering_section(ss: Seq<SectionView>, rva: u32) -> Option<SectionView>
    decreases ss.len(),
{
    if ss.len() == 0 {
        None
    } else if section_covers(ss[0], rva) {
        Some(ss[0])
    } else {
        covering_section(ss.drop_first(), rva)
    }
}

/// The report line of an interesting export, naming its section (or `?`).
pub open spec fn interesting_line(ss: Seq<SectionView>, e: ExportView) -> Seq<char> {
    let sec = match covering_section(ss, e.rva) {
        Some(s) => s.name,
        None => "?"@,
    };
    "  RVA=0x"@ + hex_padded(e.rva as nat, 8) + " section="@ + sec + " "@ + e.name + "\n"@
}

/// An export name that suggests stored media: background, animation,
/// screen, flash or image (ASCII case-insensitively).
pub open spec fn is_media_name(name: Seq<char>) -> bool {
    let lower = ascii_lower(name);
    contains_seq(lower, "background"@) || contains_seq(lower, "animation"@) || contains_seq(lower, "screen"@)
        || contains_seq(lower, "flash"@) || contains_seq(lower, "image"@)
}

/// The report block with an export's first 768 bytes of code.
pub open spec fn function_block(b: Seq<u8>, ss: Seq<SectionView>, e: ExportView) -> Seq<char> {
    "\n== "@ + e.name + " @ RVA 0x"@ + hex_padded(e.rva as nat, 8) + " ==\n"@ + match rva_offset(ss, e.rva) {
        Some(o) => hex_dump_spec(b, o, 768),
        None => "Could not map RVA to file offset.\n"@,
    }
}

/// `block`, or `  (none)` when it is empty.
pub open spec fn or_none(block: Seq<char>) -> Seq<char> {
    if block.len() == 0 { "  (none)\n"@ } else { block }
}

/// The interesting exports, in name order.
pub open spec fn interesting_exports(es: Seq<ExportView>) -> Seq<ExportView> {
    es.filter(|e: ExportView| is_interesting(e.name))
}

/// The probe's report for the DLL at `path` with contents `b`, whose
/// sections are `ss` and sorted exports `es`.
pub open spec fn report_text(path: Seq<char>, b: Seq<u8>, ss: Seq<SectionView>, es: Seq<ExportView>) -> Seq<char> {
    let interesting = interesting_exports(es);
    let strings = sort_unique(ascii_strings(b) + utf16_strings(b));
    "Corsair Elite Display - read-only iCUE flash-read reverse-engineering probe\n"@
        + "IMPORTANT: this probe only reads the DLL file. It sends NO commands to the cooler.\n\n"@
        + "DLL: "@ + path + "\n"@
        + "Size: "@ + decimal(b.len()) + " bytes\n\n"@
        + "PE sections:\n"@ + concat_lines(ss, |s: SectionView| section_line(s))
        + "\nExports:\n"@ + concat_lines(es, |e: ExportView| export_line(e))
        + "\nInteresting exports:\n"@ + or_none(concat_lines(interesting, |e: ExportView| interesting_line(ss, e)))
        + "\nInteresting embedded strings:\n"@ + or_none(concat_lines(strings, |t: Seq<char>| "  "@ + t + "\n"@))
        + "\nFunction bytes for flash/media-related exports (up to 768 bytes each):\n"@
        + concat_lines(media_exports(es), |e: ExportView| function_block(b, ss, e))
}


fn push_pad_right(v: &mut Vec<char>, s: &Vec<char>, width: usize)
    ensures
        final(v)@ == old(v)@ + pad_right(s@, width as nat),
{
    let ghost start = v@;
    push_all(v, s);
    if s.len() < width {
        let pad = width - s.len();
        for i in 0..pad
            invariant
                v@ == start + s@ + Seq::new(i as nat, |k: int| ' '),
        {
            v.push(' ');
            assert(start + s@ + Seq::new(i as nat, |k: int| ' ') + seq![' '] =~= start + s@ + Seq::new((i + 1) as nat, |k: int| ' '));
        }
    }
    assert(v@ =~= start + pad_right(s@, width as nat));
}

fn section_line_exec(s: &Section) -> (v: Vec<char>)
    ensures
        v@ == section_line(s@),
{
    let mut v: Vec<char> = Vec::new();
    push_str(&mut v, "  ");
    let name = chars_of(s.name.as_str());
    push_pad_right(&mut v, &name, 8);
    push_str(&mut v, " RVA=0x");
    push_hex_padded(&mut v, s.virtual_address as u64, 8);
    push_str(&mut v, " virtual=0x");
    push_hex_padded(&mut v, s.virtual_size as u64, 0);
    push_str(&mut v, " raw_off=0x");
    push_hex_padded(&mut v, s.raw_offset as u64, 8);
    push_str(&mut v, " raw_size=0x");
    push_hex_padded(&mut v, s.raw_size as u64, 0);
    push_str(&mut v, "\n");
    assert(hex_padded(s.virtual_size as nat, 0) == hex(s.virtual_size as nat));
    assert(hex_padded(s.raw_size as nat, 0) == hex(s.raw_size as nat));
    assert(v@ =~= section_line(s@));
    v
}

fn sections_block(sections: &Vec<Section>) -> (v: Vec<char>)
    ensures
        v@ == concat_lines(section_views(sections@), |s: SectionView| section_line(s)),
{
    let ghost ss = section_views(sections@);
    let ghost f = |s: SectionView| section_line(s);
    let mut v: Vec<char> = Vec::new();
    for i in 0..sections.len()
        invariant
            ss == section_views(sections@),
            f == (|s: SectionView| section_line(s)),
            v@ == concat_lines(ss.take(i as int), f),
    {
        let s = &sections[i];
        let line = section_line_exec(s);
        push_all(&mut v, &line);
        proof {
            assert(ss.take(i + 1).drop_last() =~= ss.take(i as int));
            assert(ss.take(i + 1).last() == s@);
        }
    }
    assert(ss.take(sections.len() as int) =~= ss);
    v
}

fn exports_block(exports: &Vec<Export>) -> (v: Vec<char>)
    ensures
        v@ == concat_lines(export_views(exports@), |e: ExportView| export_line(e)),
{
    let ghost es = export_views(exports@);
    let ghost f = |e: ExportView| export_line(e);
    let mut v: Vec<char> = Vec::new();
    for i in 0..exports.len()
        invariant
            es == export_views(exports@),
            f == (|e: ExportView| export_line(e)),
            v@ == concat_lines(es.take(i as int), f),
    {
        let e = &exports[i];
        let ghost before = v@;
        push_str(&mut v, "  ordinal=");
        push_decimal(&mut v, e.ordinal as u64);
        push_str(&mut v, " RVA=0x");
        push_hex_padded(&mut v, e.rva as u64, 8);
        push_str(&mut v, " ");
        push_str(&mut v, e.name.as_str());
        push_str(&mut v, "\n");
        proof {
            assert(es.take(i + 1).drop_last() =~= es.take(i as int));
            assert(es.take(i + 1).last() == e@);
            assert(v@ =~= before + export_line(e@));
        }
    }
    assert(es.take(exports.len() as int) =~= es);
    v
}

proof fn lemma_covering_section(ss: Seq<SectionView>, rva: u32, i: int)
    requires
        0 <= i <= ss.len(),
        forall|j: int| 0 <= j < i ==> !section_covers(#[trigger] ss[j], rva),
        i < ss.len() ==> section_covers(ss[i], rva),
    ensures
        i < ss.len() ==> covering_section(ss, rva) == Some(ss[i]),
        i == ss.len() ==> covering_section(ss, rva) is None,
    decreases i,
{
    if i > 0 {
        let t = ss.drop_first();
        assert(!section_covers(ss[0], rva));
        assert forall|j: int| 0 <= j < i - 1 implies !section_covers(#[trigger] t[j], rva) by {
            assert(t[j] == ss[j + 1]);
        }
        if i < ss.len() {
            assert(t[i - 1] == ss[i]);
        }
        lemma_covering_section(t, rva, i - 1);
    }
}

fn section_name_for(sections: &Vec<Section>, rva: u32) -> (name: Vec<char>)
    ensures
        name@ == match covering_section(section_views(sections@), rva) {
            Some(s) => s.name,
            None => "?"@,
        },
{
    let ghost ss = section_views(sections@);
    for i in 0..sections.len()
        invariant
            ss == section_views(sections@),
            forall|j: int| 0 <= j < i ==> !section_covers(#[trigger] ss[j], rva),
    {
        let s = &sections[i];
        let span = if s.virtual_size >= s.raw_size { s.virtual_size } else { s.raw_size };
        let end = s.virtual_address.saturating_add(span);
        assert(ss[i as int] == s@);
        if rva >= s.virtual_address && rva < end {
            proof {
                lemma_covering_section(ss, rva, i as int);
            }
            return chars_of(s.name.as_str());
        }
    }
    proof {
        lemma_covering_section(ss, rva, ss.len() as int);
    }
    chars_of("?")
}

fn media_name_exec(name: &Vec<char>) -> (r: bool)
    ensures
        r == is_media_name(name@),
{
    let lower = to_ascii_lower(name);
    contains(&lower, &chars_of("background")) || contains(&lower, &chars_of("animation"))
        || contains(&lower, &chars_of("screen")) || contains(&lower, &chars_of("flash"))
        || contains(&lower, &chars_of("image"))
}

fn interesting_line_exec(sections: &Vec<Section>, e: &Export, name: &Vec<char>) -> (v: Vec<char>)
    requires
        name@ == e.name@,
    ensures
        v@ == interesting_line(section_views(sections@), e@),
{
    let mut v: Vec<char> = Vec::new();
    push_str(&mut v, "  RVA=0x");
    push_hex_padded(&mut v, e.rva as u64, 8);
    push_str(&mut v, " section=");
    let sec = section_name_for(sections, e.rva);
    push_all(&mut v, &sec);
    push_str(&mut v, " ");
    push_all(&mut v, name);
    push_str(&mut v, "\n");
    assert(v@ =~= interesting_line(section_views(sections@), e@));
    v
}

fn function_block_exec(bytes: &[u8], sections: &Vec<Section>, e: &Export, name: &Vec<char>) -> (v: Vec<char>)
    requires
        name@ == e.name@,
    ensures
        v@ == function_block(bytes@, section_views(sections@), e@),
{
    let mut v: Vec<char> = Vec::new();
    push_str(&mut v, "\n== ");
    push_all(&mut v, name);
    push_str(&mut v, " @ RVA 0x");
    push_hex_padded(&mut v, e.rva as u64, 8);
    push_str(&mut v, " ==\n");
    let ghost head = v@;
    match rva_to_offset(e.rva, sections) {
        Some(offset) => {
            let dump = hex_dump(bytes, offset, 768);
            push_str(&mut v, dump.as_str());
        }
        None => {
            push_str(&mut v, "Could not map RVA to file offset.\n");
        }
    }
    assert(v@ =~= function_block(bytes@, section_views(sections@), e@));
    v
}

fn interesting_lines(sections: &Vec<Section>, exports: &Vec<Export>) -> (v: Vec<char>)
    ensures
        v@ == concat_lines(interesting_exports(export_views(exports@)), |e: ExportView| interesting_line(section_views(sections@), e)),
{
    let ghost es = export_views(exports@);
    let ghost ss = section_views(sections@);
    let ghost p = |e: ExportView| is_interesting(e.name);
    let ghost f = |e: ExportView| interesting_line(ss, e);
    let mut lines: Vec<char> = Vec::new();
    for i in 0..exports.len()
        invariant
            es == export_views(exports@),
            ss == section_views(sections@),
            p == (|e: ExportView| is_interesting(e.name)),
            f == (|e: ExportView| interesting_line(ss, e)),
            lines@ == concat_lines(es.take(i as int).filter(p), f),
    {
        let e = &exports[i];
        let name = chars_of(e.name.as_str());
        proof {
            assert(es.take(i + 1).drop_last() =~= es.take(i as int));
            assert(es.take(i + 1).last() == e@);
            reveal_with_fuel(Seq::filter, 1);
        }
        if interesting_chars(&name) {
            let line = interesting_line_exec(sections, e, &name);
            let ghost before = lines@;
            push_all(&mut lines, &line);
            proof {
                let ft = es.take(i as int).filter(p);
                assert(es.take(i + 1).filter(p) == ft.push(e@));
                assert(ft.push(e@).drop_last() =~= ft);
            }
        } else {
            proof {
                assert(es.take(i + 1).filter(p) == es.take(i as int).filter(p));
            }
        }
    }
    assert(es.take(exports.len() as int) =~= es);
    lines
}

/// The exports that are both interesting and media related.
pub open spec fn media_exports(es: Seq<ExportView>) -> Seq<ExportView> {
    interesting_exports(es).filter(|e: ExportView| is_media_name(e.name))
}

proof fn lemma_media_exports_step(es: Seq<ExportView>, i: int)
    requires
        0 <= i < es.len(),
    ensures
        media_exports(es.take(i + 1)) == if is_interesting(es[i].name) && is_media_name(es[i].name) {
            media_exports(es.take(i)).push(es[i])
        } else {
            media_exports(es.take(i))
        },
{
    let p = |e: ExportView| is_interesting(e.name);
    let m = |e: ExportView| is_media_name(e.name);
    reveal_with_fuel(Seq::filter, 1);
    assert(es.take(i + 1).drop_last() =~= es.take(i));
    assert(es.take(i + 1).last() == es[i]);
    let ft = es.take(i).filter(p);
    if is_interesting(es[i].name) {
        assert(es.take(i + 1).filter(p) == ft.push(es[i]));
        assert(ft.push(es[i]).drop_last() =~= ft);
    } else {
        assert(es.take(i + 1).filter(p) == ft);
    }
}

fn function_blocks(bytes: &[u8], sections: &Vec<Section>, exports: &Vec<Export>) -> (v: Vec<char>)
    ensures
        v@ == concat_lines(media_exports(export_views(exports@)), |e: ExportView| function_block(bytes@, section_views(sections@), e)),
{
    let ghost es = export_views(exports@);
    let ghost ss = section_views(sections@);
    let ghost g = |e: ExportView| function_block(bytes@, ss, e);
    let mut blocks: Vec<char> = Vec::new();
    for i in 0..exports.len()
        invariant
            es == export_views(exports@),
            ss == section_views(sections@),
            g == (|e: ExportView| function_block(bytes@, ss, e)),
            blocks@ == concat_lines(media_exports(es.take(i as int)), g),
    {
        let e = &exports[i];
        let name = chars_of(e.name.as_str());
        proof {
            lemma_media_exports_step(es, i as int);
            assert(es[i as int] == e@);
        }
        if interesting_chars(&name) && media_name_exec(&name) {
            let block = function_block_exec(bytes, sections, e, &name);
            push_all(&mut blocks, &block);
            proof {
                let mt = media_exports(es.take(i as int));
                assert(mt.push(e@).drop_last() =~= mt);
            }
        }
    }
    assert(es.take(exports.len() as int) =~= es);
    blocks
}

fn strings_block(strings: &Vec<String>) -> (v: Vec<char>)
    ensures
        v@ == concat_lines(string_views(strings@), |t: Seq<char>| "  "@ + t + "\n"@),
{
    let ghost ts = string_views(strings@);
    let ghost f = |t: Seq<char>| "  "@ + t + "\n"@;
    let mut v: Vec<char> = Vec::new();
    for i in 0..strings.len()
        invariant
            ts == string_views(strings@),
            f == (|t: Seq<char>| "  "@ + t + "\n"@),
            v@ == concat_lines(ts.take(i as int), f),
    {
        let ghost before = v@;
        push_str(&mut v, "  ");
        push_str(&mut v, strings[i].as_str());
        push_str(&mut v, "\n");
        proof {
            assert(ts.take(i + 1).drop_last() =~= ts.take(i as int));
            assert(ts.take(i + 1).last() == strings@[i as int]@);
            assert(v@ =~= before + ("  "@ + strings@[i as int]@ + "\n"@));
        }
    }
    assert(ts.take(strings.len() as int) =~= ts);
    v
}

fn push_or_none(v: &mut Vec<char>, block: &Vec<char>)
    ensures
        final(v)@ == old(v)@ + or_none(block@),
{
    if block.len() == 0 {
        push_str(v, "  (none)\n");
    } else {
        push_all(v, block);
    }
}

/// Builds the probe's report for the DLL at `path` (its display form) with
/// contents `bytes`, or the reason its headers could not be read.
pub fn build_report(path: &str, bytes: &[u8]) -> (r: Result<String, PeError>)
    ensures
        match r {
            Ok(text) => parse_pe_spec(bytes@) matches Ok((ss, es)) && text@ == report_text(path@, bytes@, ss, es),
            Err(e) => parse_pe_spec(bytes@) == Err::<(Seq<SectionView>, Seq<ExportView>), PeError>(e),
        },
{
    let image = parse_pe(bytes)?;
    let mut out: Vec<char> = Vec::new();
    push_str(&mut out, "Corsair Elite Display - read-only iCUE flash-read reverse-engineering probe\n");
    push_str(&mut out, "IMPORTANT: this probe only reads the DLL file. It sends NO commands to the cooler.\n\n");
    push_str(&mut out, "DLL: ");
    push_str(&mut out, path);
    push_str(&mut out, "\n");
    push_str(&mut out, "Size: ");
    push_decimal(&mut out, bytes.len() as u64);
    push_str(&mut out, " bytes\n\n");
    push_str(&mut out, "PE sections:\n");
    let sb = sections_block(&image.sections);
    push_all(&mut out, &sb);
    push_str(&mut out, "\nExports:\n");
    let eb = exports_block(&image.exports);
    push_all(&mut out, &eb);
    push_str(&mut out, "\nInteresting exports:\n");
    let lines = interesting_lines(&image.sections, &image.exports);
    let blocks = function_blocks(bytes, &image.sections, &image.exports);
    push_or_none(&mut out, &lines);
    push_str(&mut out, "\nInteresting embedded strings:\n");
    let mut strings = collect_ascii_strings(bytes);
    let mut utf16 = collect_utf16_ascii_strings(bytes);
    let ghost a = string_views(strings@);
    let ghost b = string_views(utf16@);
    strings.append(&mut utf16);
    assert(string_views(strings@) =~= a + b);
    let unique = sort_unique_strings(&strings);
    let tb = strings_block(&unique);
    push_or_none(&mut out, &tb);
    push_str(&mut out, "\nFunction bytes for flash/media-related exports (up to 768 bytes each):\n");
    push_all(&mut out, &blocks);
    proof {
        let ss = section_views(image.sections@);
        let es = export_views(image.exports@);
        assert(out@ =~= report_text(path@, bytes@, ss, es));
    }
    Ok(string_of(&out))
}

// ---------------------------------------------------------------------
// Locating the vendor library

/// The vendor library the probe reads.
pub const TARGET_DLL: &'static str = "iD_BD_x64_cc021.dll";

pub open spec fn missing_dll_text() -> Seq<char> {
    "Could not find iD_BD_x64_cc021.dll under the Corsair Program Files directory"@
}

/// The folders under Corsair's program directory to look in, in the order
/// they are tried: the known install folders and every folder found there,
/// sorted and without repeats (paths that differ only in this folder
/// compare as the folder names do).
pub fn candidate_dirs(found: &Vec<String>) -> (r: Vec<String>)
    ensures
        string_views(r@) == sort_unique(seq![
            "Corsair iCUE5 Software"@,
            "CORSAIR iCUE 4 Software"@,
            "Corsair iCUE 4 Software"@,
        ] + string_views(found@)),
{
    let mut all: Vec<String> = Vec::new();
    all.push(String::from_str("Corsair iCUE5 Software"));
    all.push(String::from_str("CORSAIR iCUE 4 Software"));
    all.push(String::from_str("Corsair iCUE 4 Software"));
    let ghost start = seq![
        "Corsair iCUE5 Software"@,
        "CORSAIR iCUE 4 Software"@,
        "Corsair iCUE 4 Software"@,
    ];
    assert(string_views(all@) =~= start);
    for i in 0..found.len()
        invariant
            string_views(all@) == start + string_views(found@).take(i as int),
    {
        let c = found[i].clone();
        assert(c@ == found@[i as int]@);
        let ghost before = all@;
        all.push(c);
        assert(all@ == before.push(c));
        assert(string_views(all@) =~= string_views(before).push(c@));
        assert(string_views(found@).take(i as int + 1) =~= string_views(found@).take(i as int).push(c@));
        assert(string_views(all@) =~= start + string_views(found@).take(i as int + 1));
    }
    assert(string_views(found@).take(found@.len() as int) =~= string_views(found@));
    sort_unique_strings(&all)
}

/// The candidate that holds the library: the first one that is a file.
pub fn find_dll(is_file: &Vec<bool>) -> (r: Result<usize, String>)
    ensures
        match r {
            Ok(i) => i < is_file@.len() && is_file@[i as int] && forall|k: int|
                0 <= k < i ==> !is_file@[k],
            Err(e) => e@ == missing_dll_text() && forall|k: int| 0 <= k < is_file@.len() ==> !is_file@[k],
        },
{
    for i in 0..is_file.len()
        invariant
            forall|k: int| 0 <= k < i ==> !is_file@[k],
    {
        if is_file[i] {
            return Ok(i);
        }
    }
    Err(String::from_str("Could not find iD_BD_x64_cc021.dll under the Corsair Program Files directory"))
}

} // verus!
