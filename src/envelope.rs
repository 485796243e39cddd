//! The envelope `{extension, file}` and its MessagePack form.
use vstd::prelude::*;
use crate::pipeline::GibberishError;
use msgpack_simple::{MapElement, MsgPack};

verus! {

/// A map value as the envelope reads it.
pub enum Value {
    Text(String),
    Bytes(Vec<u8>),
    /// Any other kind of value.
    Other,
}

pub enum ValueView {
    Text(Seq<char>),
    Bytes(Seq<u8>),
    Other,
}

impl View for Value {
    type V = ValueView;

    open spec fn view(&self) -> ValueView {
        match self {
            Value::Text(s) => ValueView::Text(s@),
            Value::Bytes(b) => ValueView::Bytes(b@),
            Value::Other => ValueView::Other,
        }
    }
}

/// One entry of a decoded map; `key` is `None` where the key is not a string.
pub struct Entry {
    pub key: Option<String>,
    pub value: Value,
}

pub struct EntryView {
    pub key: Option<Seq<char>>,
    pub value: ValueView,
}

impl View for Entry {
    type V = EntryView;

    open spec fn view(&self) -> EntryView {
        EntryView {
            key: match self.key {
                Some(k) => Some(k@),
                None => None,
            },
            value: self.value@,
        }
    }
}

/// What decoding MessagePack bytes gives at the top level.
pub enum Unpacked {
    Entries(Vec<Entry>),
    NotMap,
    Invalid,
}

pub enum UnpackedView {
    Entries(Seq<EntryView>),
    NotMap,
    Invalid,
}

pub open spec fn entries_view(es: Seq<Entry>) -> Seq<EntryView> {
    es.map_values(|e: Entry| e@)
}

impl View for Unpacked {
    type V = UnpackedView;

    open spec fn view(&self) -> UnpackedView {
        match self {
            Unpacked::Entries(es) => UnpackedView::Entries(entries_view(es@)),
            Unpacked::NotMap => UnpackedView::NotMap,
            Unpacked::Invalid => UnpackedView::Invalid,
        }
    }
}

/// The original extension and content of a file.
pub struct Envelope {
    pub extension: String,
    pub content: Vec<u8>,
}

/// A big-endian 16-bit number at `p`.
pub open spec fn be16(b: Seq<u8>, p: int) -> int {
    b[p] as int * 0x100 + b[p + 1] as int
}

/// A big-endian 32-bit number at `p`.
pub open spec fn be32(b: Seq<u8>, p: int) -> int {
    be16(b, p) * 0x10000 + be16(b, p + 2)
}

/// Size of a MessagePack value of fixed width by its first byte; 0 for the
/// others.
pub open spec fn fixed_size(t: u8) -> int {
    if t <= 0x7f || t >= 0xe0 || t == 0xc0 || t == 0xc2 || t == 0xc3 {
        1
    } else if t == 0xcc || t == 0xd0 {
        2
    } else if t == 0xcd || t == 0xd1 || t == 0xd4 {
        3
    } else if t == 0xd5 {
        4
    } else if t == 0xca || t == 0xce || t == 0xd2 {
        5
    } else if t == 0xd6 {
        6
    } else if t == 0xcb || t == 0xcf || t == 0xd3 {
        9
    } else if t == 0xd7 {
        10
    } else if t == 0xd8 {
        18
    } else {
        0
    }
}

/// Size, header and payload, of the value that starts at `pos`, where it is
/// neither a map nor an array and lies wholly within `b`.
pub open spec fn scalar_size(b: Seq<u8>, pos: int) -> Option<int> {
    if pos < 0 || pos >= b.len() {
        None
    } else {
        let t = b[pos];
        let rest = b.len() - pos;
        let size: int = if fixed_size(t) > 0 {
            fixed_size(t)
        } else if 0xa0 <= t <= 0xbf {
            1 + (t - 0xa0)
        } else if (t == 0xc4 || t == 0xd9) && rest >= 2 {
            2 + b[pos + 1]
        } else if t == 0xc7 && rest >= 3 {
            3 + b[pos + 1]
        } else if (t == 0xc5 || t == 0xda) && rest >= 3 {
            3 + be16(b, pos + 1)
        } else if t == 0xc8 && rest >= 4 {
            4 + be16(b, pos + 1)
        } else if (t == 0xc6 || t == 0xdb) && rest >= 5 {
            5 + be32(b, pos + 1)
        } else if t == 0xc9 && rest >= 6 {
            6 + be32(b, pos + 1)
        } else {
            0
        };
        if size > 0 && size <= rest {
            Some(size)
        } else {
            None
        }
    }
}

/// Header size and entry count of a map that starts at the first byte.
pub open spec fn map_header(b: Seq<u8>) -> Option<(int, int)> {
    if b.len() == 0 {
        None
    } else if 0x80 <= b[0] <= 0x8f {
        Some((1, b[0] - 0x80))
    } else if b[0] == 0xde && b.len() >= 3 {
        Some((3, be16(b, 1)))
    } else if b[0] == 0xdf && b.len() >= 5 {
        Some((5, be32(b, 1)))
    } else {
        None
    }
}

/// `n` values, none of them a map or an array, lie one after the other from `pos`.
pub open spec fn scalars_from(b: Seq<u8>, pos: int, n: int) -> bool
    decreases n,
{
    if n <= 0 {
        true
    } else {
        match scalar_size(b, pos) {
            Some(l) => scalars_from(b, pos + l, n - 1),
            None => false,
        }
    }
}

/// The shape an envelope is read from: a map whose keys and values are
/// neither maps nor arrays, or a single such value, in both cases lying
/// wholly within the bytes.
pub open spec fn envelope_shape(b: Seq<u8>) -> bool {
    match map_header(b) {
        Some((h, c)) => scalars_from(b, h, 2 * c),
        None => scalar_size(b, 0) is Some,
    }
}

/// The bytes that MessagePack makes of a map from string keys to values,
/// entries in the order given.
pub uninterp spec fn packed_of(entries: Seq<(Seq<char>, ValueView)>) -> Seq<u8>;

/// What MessagePack decodes the bytes to.
pub uninterp spec fn unpacked_of(bytes: Seq<u8>) -> UnpackedView;

/// A string short enough that its UTF-8 form (at most four bytes a
/// character) has a 32-bit length.
pub open spec fn text_fits(s: Seq<char>) -> bool {
    s.len() <= 0x3fff_ffff
}

/// Lengths that a MessagePack string or byte string can carry.
pub open spec fn value_fits(v: ValueView) -> bool {
    match v {
        ValueView::Text(s) => text_fits(s),
        ValueView::Bytes(b) => b.len() <= u32::MAX,
        ValueView::Other => true,
    }
}

pub open spec fn pairs_view(ps: Seq<(String, Value)>) -> Seq<(Seq<char>, ValueView)> {
    ps.map_values(|p: (String, Value)| (p.0@, p.1@))
}

/// The entries that decoding packed pairs gives.
pub open spec fn pairs_as_entries(ps: Seq<(Seq<char>, ValueView)>) -> Seq<EntryView> {
    ps.map_values(|p: (Seq<char>, ValueView)| EntryView { key: Some(p.0), value: p.1 })
}

/// Relies on MsgPack::encode of a map of string keys: the MessagePack
/// encoding. Where every length fits in 32 bits it is a map of strings,
/// byte strings and nils (a value that is neither string nor bytes is
/// written as nil), which MsgPack::parse reads back to the same map.
#[verifier::external_body]
fn pack(pairs: Vec<(String, Value)>) -> (r: Vec<u8>)
    ensures
        r@ == packed_of(pairs_view(pairs@)),
        (pairs@.len() <= u32::MAX && forall|i: int| 0 <= i < pairs@.len()
            ==> text_fits(#[trigger] pairs@[i].0@) && value_fits(pairs@[i].1@))
            ==> envelope_shape(r@)
                && unpacked_of(r@) == UnpackedView::Entries(pairs_as_entries(pairs_view(pairs@))),
{
    MsgPack::Map(pairs.into_iter().map(|(k, v)| MapElement {
        key: MsgPack::String(k),
        value: match v {
            Value::Text(s) => MsgPack::String(s),
            Value::Bytes(b) => MsgPack::Binary(b),
            Value::Other => MsgPack::Nil,
        },
    }).collect()).encode()
}

/// Relies on MsgPack::parse: a map's entries with string keys and string or
/// byte-string values kept as such, in order. Only bytes of the envelope's
/// shape are handed to it: there the parse neither recurses into nested
/// values nor reserves room for more entries than the bytes can hold.
#[verifier::external_body]
fn unpack(bytes: &[u8]) -> (r: Unpacked)
    requires
        envelope_shape(bytes@),
    ensures
        r@ == unpacked_of(bytes@),
{
    match MsgPack::parse(bytes) {
        Ok(MsgPack::Map(es)) => Unpacked::Entries(es.into_iter().map(|e| Entry {
            key: match e.key {
                MsgPack::String(k) => Some(k),
                _ => None,
            },
            value: match e.value {
                MsgPack::String(s) => Value::Text(s),
                MsgPack::Binary(b) => Value::Bytes(b),
                _ => Value::Other,
            },
        }).collect()),
        Ok(_) => Unpacked::NotMap,
        Err(_) => Unpacked::Invalid,
    }
}

pub open spec fn extension_key() -> Seq<char> {
    seq!['e', 'x', 't', 'e', 'n', 's', 'i', 'o', 'n']
}

pub open spec fn file_key() -> Seq<char> {
    seq!['f', 'i', 'l', 'e']
}

/// The two pairs that an envelope is written as.
pub open spec fn envelope_pairs(extension: Seq<char>, content: Seq<u8>) -> Seq<(Seq<char>, ValueView)> {
    seq![(extension_key(), ValueView::Text(extension)), (file_key(), ValueView::Bytes(content))]
}

/// Reads entries `i..` in order, on top of what was read before them: a
/// non-string key, or a known key with a value of the wrong kind, stops the
/// scan; later entries of a known key win; unknown keys are skipped.
pub open spec fn scan(es: Seq<EntryView>, i: int, ext: Option<Seq<char>>, file: Option<Seq<u8>>)
    -> Result<(Option<Seq<char>>, Option<Seq<u8>>), GibberishError>
    decreases es.len() - i,
{
    if i < 0 || i >= es.len() {
        Ok((ext, file))
    } else {
        match es[i].key {
            None => Err(GibberishError::KeyNotText),
            Some(k) => if k == extension_key() {
                match es[i].value {
                    ValueView::Text(s) => scan(es, i + 1, Some(s), file),
                    _ => Err(GibberishError::ExtensionNotText),
                }
            } else if k == file_key() {
                match es[i].value {
                    ValueView::Bytes(b) => scan(es, i + 1, ext, Some(b)),
                    _ => Err(GibberishError::FileNotBinary),
                }
            } else {
                scan(es, i + 1, ext, file)
            },
        }
    }
}

/// Reading entries fails only on what the entries themselves hold.
pub proof fn lemma_scan_errors(es: Seq<EntryView>, i: int, ext: Option<Seq<char>>, file: Option<Seq<u8>>)
    ensures
        scan(es, i, ext, file) matches Err(e) ==> e == GibberishError::KeyNotText
            || e == GibberishError::ExtensionNotText || e == GibberishError::FileNotBinary,
    decreases es.len() - i,
{
    if 0 <= i < es.len() {
        lemma_scan_errors(es, i + 1, ext, file);
        match es[i].value {
            ValueView::Text(s) => lemma_scan_errors(es, i + 1, Some(s), file),
            ValueView::Bytes(b) => lemma_scan_errors(es, i + 1, ext, Some(b)),
            ValueView::Other => {},
        }
    }
}

/// The extension and content that the entries of a map describe.
pub open spec fn envelope_of_entries(es: Seq<EntryView>) -> Result<(Seq<char>, Seq<u8>), GibberishError> {
    match scan(es, 0, None, None) {
        Err(e) => Err(e),
        Ok((None, _)) => Err(GibberishError::ExtensionMissing),
        Ok((Some(_), None)) => Err(GibberishError::FileMissing),
        Ok((Some(x), Some(f))) => Ok((x, f)),
    }
}

/// The extension and content that decoded MessagePack describes.
pub open spec fn envelope_of(u: UnpackedView) -> Result<(Seq<char>, Seq<u8>), GibberishError> {
    match u {
        UnpackedView::Invalid => Err(GibberishError::InvalidEnvelope),
        UnpackedView::NotMap => Err(GibberishError::NotAMap),
        UnpackedView::Entries(es) => envelope_of_entries(es),
    }
}

pub open spec fn envelope_result_view(r: Result<Envelope, GibberishError>)
    -> Result<(Seq<char>, Seq<u8>), GibberishError> {
    match r {
        Ok(e) => Ok((e.extension@, e.content@)),
        Err(e) => Err(e),
    }
}

/// Reads the extension and content out of the entries of a decoded map.
pub fn envelope_from_entries(entries: Vec<Entry>) -> (r: Result<Envelope, GibberishError>)
    ensures
        envelope_result_view(r) == envelope_of_entries(entries_view(entries@)),
{
    let ghost es = entries_view(entries@);
    let ext_key = String::from_str("extension");
    let file_key_s = String::from_str("file");
    proof {
        reveal_strlit("extension");
        reveal_strlit("file");
        assert(ext_key@ =~= extension_key());
        assert(file_key_s@ =~= file_key());
    }
    let mut ext: Option<String> = None;
    let mut file: Option<Vec<u8>> = None;
    let mut rest = entries;
    let ghost mut i: int = 0;
    while rest.len() > 0
        invariant
            0 <= i <= es.len(),
            es == entries_view(entries@),
            rest@.len() == es.len() - i,
            forall|j: int| 0 <= j < rest@.len() ==> (#[trigger] rest@[j])@ == es[i + j],
            ext_key@ == extension_key(),
            file_key_s@ == file_key(),
            scan(es, 0, None, None) == scan(
                es,
                i,
                match ext { Some(x) => Some(x@), None => None },
                match file { Some(f) => Some(f@), None => None },
            ),
        decreases rest@.len(),
    {
        let e = rest.remove(0);
        assert(e@ == es[i]);
        match e.key {
            None => {
                return Err(GibberishError::KeyNotText);
            },
            Some(k) => {
                if k == ext_key {
                    match e.value {
                        Value::Text(s) => {
                            ext = Some(s);
                        },
                        _ => {
                            return Err(GibberishError::ExtensionNotText);
                        },
                    }
                } else if k == file_key_s {
                    match e.value {
                        Value::Bytes(b) => {
                            file = Some(b);
                        },
                        _ => {
                            return Err(GibberishError::FileNotBinary);
                        },
                    }
                }
            },
        }
        proof {
            i = i + 1;
        }
    }
    match ext {
        None => Err(GibberishError::ExtensionMissing),
        Some(x) => match file {
            None => Err(GibberishError::FileMissing),
            Some(f) => Ok(Envelope { extension: x, content: f }),
        },
    }
}

/// Writes an envelope as a MessagePack map with the entries `extension`
/// (a string) and `file` (a byte string).
pub fn pack_envelope(extension: &str, content: Vec<u8>) -> (r: Vec<u8>)
    ensures
        r@ == packed_of(envelope_pairs(extension@, content@)),
        text_fits(extension@) && content@.len() <= u32::MAX
            ==> envelope_from_bytes(r@) == Ok::<(Seq<char>, Seq<u8>), GibberishError>((extension@, content@)),
{
    let ghost c = content@;
    proof {
        reveal_strlit("extension");
        reveal_strlit("file");
    }
    let pairs = vec![
        (String::from_str("extension"), Value::Text(String::from_str(extension))),
        (String::from_str("file"), Value::Bytes(content)),
    ];
    assert(pairs@[0].0@ =~= extension_key());
    assert(pairs@[1].0@ =~= file_key());
    assert(pairs_view(pairs@)[0] == envelope_pairs(extension@, c)[0]);
    assert(pairs_view(pairs@)[1] == envelope_pairs(extension@, c)[1]);
    assert(pairs_view(pairs@) =~= envelope_pairs(extension@, c));
    let r = pack(pairs);
    proof {
        if text_fits(extension@) && c.len() <= u32::MAX {
            assert(text_fits(pairs@[0].0@) && value_fits(pairs@[0].1@));
            assert(text_fits(pairs@[1].0@) && value_fits(pairs@[1].1@));
            lemma_envelope_entries(extension@, c);
        }
    }
    r
}

/// The entries that an envelope is written as read back to that envelope.
pub proof fn lemma_envelope_entries(extension: Seq<char>, content: Seq<u8>)
    ensures
        envelope_of_entries(pairs_as_entries(envelope_pairs(extension, content)))
            == Ok::<(Seq<char>, Seq<u8>), GibberishError>((extension, content)),
{
    let es = pairs_as_entries(envelope_pairs(extension, content));
    assert(es[0].key == Some(extension_key()));
    assert(es[1].key == Some(file_key()));
    assert(file_key() != extension_key()) by {
        assert(file_key().len() != extension_key().len());
    }
    assert(scan(es, 2, Some(extension), Some(content)) == Ok::<(Option<Seq<char>>, Option<Seq<u8>>), GibberishError>((Some(extension), Some(content))));
    assert(scan(es, 1, Some(extension), None) == scan(es, 2, Some(extension), Some(content)));
    assert(scan(es, 0, None, None) == scan(es, 1, Some(extension), None));
}

/// The extension and content that MessagePack bytes describe; bytes not of
/// the envelope's shape are invalid.
pub open spec fn envelope_from_bytes(b: Seq<u8>) -> Result<(Seq<char>, Seq<u8>), GibberishError> {
    if envelope_shape(b) {
        envelope_of(unpacked_of(b))
    } else {
        Err(GibberishError::InvalidEnvelope)
    }
}

fn read16(b: &[u8], p: usize) -> (r: u64)
    requires
        p + 2 <= b@.len(),
    ensures
        r == be16(b@, p as int),
{
    b[p] as u64 * 0x100 + b[p + 1] as u64
}

fn read32(b: &[u8], p: usize) -> (r: u64)
    requires
        p + 4 <= b@.len(),
    ensures
        r == be32(b@, p as int),
{
    let _len = b.len();
    read16(b, p) * 0x10000 + read16(b, p + 2)
}

fn fixed_size_of(t: u8) -> (r: u64)
    ensures
        r == fixed_size(t),
{
    if t <= 0x7f || t >= 0xe0 || t == 0xc0 || t == 0xc2 || t == 0xc3 {
        1
    } else if t == 0xcc || t == 0xd0 {
        2
    } else if t == 0xcd || t == 0xd1 || t == 0xd4 {
        3
    } else if t == 0xd5 {
        4
    } else if t == 0xca || t == 0xce || t == 0xd2 {
        5
    } else if t == 0xd6 {
        6
    } else if t == 0xcb || t == 0xcf || t == 0xd3 {
        9
    } else if t == 0xd7 {
        10
    } else if t == 0xd8 {
        18
    } else {
        0
    }
}

fn scalar_size_at(b: &[u8], pos: usize) -> (r: Option<usize>)
    ensures
        match r {
            Some(l) => scalar_size(b@, pos as int) == Some(l as int) && 0 < l && pos + l <= b@.len(),
            None => scalar_size(b@, pos as int) is None,
        },
{
    if pos >= b.len() {
        return None;
    }
    let t = b[pos];
    let rest = b.len() - pos;
    let size: u64 = if fixed_size_of(t) > 0 {
        fixed_size_of(t)
    } else if 0xa0 <= t && t <= 0xbf {
        1 + (t - 0xa0) as u64
    } else if (t == 0xc4 || t == 0xd9) && rest >= 2 {
        2 + b[pos + 1] as u64
    } else if t == 0xc7 && rest >= 3 {
        3 + b[pos + 1] as u64
    } else if (t == 0xc5 || t == 0xda) && rest >= 3 {
        3 + read16(b, pos + 1)
    } else if t == 0xc8 && rest >= 4 {
        4 + read16(b, pos + 1)
    } else if (t == 0xc6 || t == 0xdb) && rest >= 5 {
        5 + read32(b, pos + 1)
    } else if t == 0xc9 && rest >= 6 {
        6 + read32(b, pos + 1)
    } else {
        0
    };
    if size > 0 && size <= rest as u64 {
        Some(size as usize)
    } else {
        None
    }
}

/// Tells whether bytes have the envelope's shape.
pub fn has_envelope_shape(b: &[u8]) -> (r: bool)
    ensures
        r == envelope_shape(b@),
{
    let (h, c): (usize, u64) = if b.len() == 0 {
        return scalar_size_at(b, 0).is_some();
    } else if 0x80 <= b[0] && b[0] <= 0x8f {
        (1, (b[0] - 0x80) as u64)
    } else if b[0] == 0xde && b.len() >= 3 {
        (3, read16(b, 1))
    } else if b[0] == 0xdf && b.len() >= 5 {
        (5, read32(b, 1))
    } else {
        return scalar_size_at(b, 0).is_some();
    };
    let len = b.len();
    let total: u64 = 2 * c;
    let mut k: u64 = 0;
    let mut pos: usize = h;
    while k < total
        invariant
            k <= total,
            pos <= b@.len(),
            len == b@.len(),
            total == 2 * c,
            map_header(b@) == Some((h as int, c as int)),
            scalars_from(b@, h as int, 2 * c) == scalars_from(b@, pos as int, total - k),
        decreases total - k,
    {
        match scalar_size_at(b, pos) {
            None => {
                return false;
            },
            Some(l) => {
                pos = pos + l;
            },
        }
        k = k + 1;
    }
    true
}

/// Reads an envelope out of MessagePack bytes.
pub fn unpack_envelope(bytes: &[u8]) -> (r: Result<Envelope, GibberishError>)
    ensures
        envelope_result_view(r) == envelope_from_bytes(bytes@),
{
    if !has_envelope_shape(bytes) {
        return Err(GibberishError::InvalidEnvelope);
    }
    match unpack(bytes) {
        Unpacked::Entries(es) => envelope_from_entries(es),
        Unpacked::NotMap => Err(GibberishError::NotAMap),
        Unpacked::Invalid => Err(GibberishError::InvalidEnvelope),
    }
}

} // verus!
