use vstd::prelude::*;
use vstd::utf8::{encode_utf8, decode_utf8, is_char_boundary};
use vstd::string::{StringExecFns, StringSliceAdditionalSpecFns};
use crate::command::{decimal_string, decimal};

verus! {

/// How slanted a font is.
#[derive(Debug, Clone, Copy, PartialEq, Eq, Structural)]
pub enum FontSlant {
    Normal,
    Italic,
    Oblique,
}

/// How heavy a font is.
#[derive(Debug, Clone, Copy, PartialEq, Eq, Structural)]
pub enum FontWeight {
    Normal,
    Bold,
}

/// A font as a plot's design names it: family, weight, slant and size in points.
#[derive(Debug)]
pub struct FontData {
    pub font_family: String,
    pub font_weight: FontWeight,
    pub font_slant: FontSlant,
    pub font_size: i32,
}

/// Where the first match of a regular expression lies in a text (byte offsets
/// of its start and end), or `None` when it does not match.
pub uninterp spec fn regex_first(pattern: Seq<char>, text: Seq<char>) -> Option<(usize, usize)>;

/// `regex::Regex::new(pattern)` then `Regex::find(text)`: the byte span of the
/// leftmost-first match. The span is a function of the pattern and the text;
/// the crate documents that it lies within the text on character boundaries. A
/// pattern the crate refuses matches nothing.
#[verifier::external_body]
fn regex_find(pattern: &str, text: &str) -> (r: Option<(usize, usize)>)
    ensures
        r == regex_first(pattern@, text@),
        r matches Some((s, e)) ==> {
            &&& s <= e <= text.spec_bytes().len()
            &&& is_char_boundary(text.spec_bytes(), s as int)
            &&& is_char_boundary(text.spec_bytes(), e as int)
        },
{
    regex::Regex::new(pattern).ok().and_then(|re| re.find(text)).map(|m| (m.start(), m.end()))
}

/// The value of a run of ASCII decimal digit bytes.
pub open spec fn bytes_value(d: Seq<u8>) -> nat
    decreases d.len(),
{
    if d.len() == 0 {
        0
    } else {
        bytes_value(d.drop_last()) * 10 + (d.last() - 48) as nat
    }
}

/// Whether every byte is an ASCII decimal digit.
pub open spec fn all_digit_bytes(d: Seq<u8>) -> bool {
    forall|k: int| 0 <= k < d.len() ==> 48 <= #[trigger] d[k] <= 57
}

/// The `i32` the bytes spell as `i32`'s parser reads them: an optional `+` or
/// `-`, then one or more ASCII digits, with a value in range.
pub open spec fn i32_of_bytes(b: Seq<u8>) -> Option<i32> {
    let neg = b.len() > 0 && b[0] == 45;
    let signed = b.len() > 0 && (b[0] == 45 || b[0] == 43);
    let d = if signed { b.skip(1) } else { b };
    if d.len() == 0 || !all_digit_bytes(d) {
        None
    } else if neg && bytes_value(d) <= 0x8000_0000 {
        Some((0 - bytes_value(d)) as i32)
    } else if !neg && bytes_value(d) <= 0x7fff_ffff {
        Some(bytes_value(d) as i32)
    } else {
        None
    }
}

proof fn lemma_bytes_value_grows(d: Seq<u8>, k: int)
    requires
        0 <= k <= d.len(),
        all_digit_bytes(d),
    ensures
        bytes_value(d.take(k)) <= bytes_value(d),
    decreases d.len() - k,
{
    if k < d.len() {
        lemma_bytes_value_grows(d, k + 1);
        assert(d.take(k + 1).drop_last() =~= d.take(k));
        assert(d.take(k + 1).last() == d[k]);
    } else {
        assert(d.take(k) =~= d);
    }
}

/// Reads `b[lo..hi]` as `i32`'s parser does.
pub fn parse_i32(b: &[u8], lo: usize, hi: usize) -> (r: Option<i32>)
    requires
        lo <= hi <= b@.len(),
    ensures
        r == i32_of_bytes(b@.subrange(lo as int, hi as int)),
{
    let ghost t = b@.subrange(lo as int, hi as int);
    let neg = lo < hi && b[lo] == 45;
    assert(lo < hi ==> t[0] == b@[lo as int]);
    let signed = lo < hi && (b[lo] == 45 || b[lo] == 43);
    let start: usize = if signed { lo + 1 } else { lo };
    let ghost d = if signed { t.skip(1) } else { t };
    assert(d =~= b@.subrange(start as int, hi as int));
    if start >= hi {
        return None;
    }
    let mut val: u64 = 0;
    let mut i: usize = start;
    while i < hi
        invariant
            lo <= start <= i <= hi <= b@.len(),
            start < hi,
            t == b@.subrange(lo as int, hi as int),
            neg == (t.len() > 0 && t[0] == 45),
            signed == (t.len() > 0 && (t[0] == 45 || t[0] == 43)),
            d == (if signed { t.skip(1) } else { t }),
            d == b@.subrange(start as int, hi as int),
            all_digit_bytes(d.take(i - start)),
            val as nat == bytes_value(d.take(i - start)),
            val <= 0x8000_0000,
        decreases hi - i,
    {
        let c = b[i];
        if c < 48 || c > 57 {
            assert(d[i - start] == c);
            assert(!all_digit_bytes(d));
            return None;
        }
        assert(d.take(i + 1 - start).drop_last() =~= d.take(i - start));
        assert(d.take(i + 1 - start).last() == c);
        let next = val * 10 + (c - 48) as u64;
        assert(all_digit_bytes(d.take(i + 1 - start)));
        if next > 0x8000_0000 {
            proof {
                if all_digit_bytes(d) {
                    lemma_bytes_value_grows(d, i + 1 - start);
                }
            }
            return None;
        }
        val = next;
        i = i + 1;
    }
    assert(d.take(i - start) =~= d);
    if neg {
        Some((0 - (val as i64)) as i32)
    } else if val <= 0x7fff_ffff {
        Some(val as i32)
    } else {
        None
    }
}

/// The pattern for the size at the end of a font name: two digits.
pub open spec fn size_pattern() -> Seq<char> {
    "\\d{2}$|\\d{2}$"@
}

/// The bytes of `Italic`.
pub open spec fn italic_bytes() -> Seq<u8> {
    seq![73u8, 116u8, 97u8, 108u8, 105u8, 99u8]
}

/// The bytes of `Oblique`.
pub open spec fn oblique_bytes() -> Seq<u8> {
    seq![79u8, 98u8, 108u8, 105u8, 113u8, 117u8, 101u8]
}

/// The pattern for the slant word before the size.
pub open spec fn slant_pattern() -> Seq<char> {
    "Italic|Oblique"@
}

/// Where the family name ends, given the size match's start, the slant match
/// and the start of the `Bold` match.
pub open spec fn family_end(size_start: usize, slant: Option<(usize, usize)>, bold: Option<usize>) -> int {
    match bold {
        Some(s3) => s3 as int,
        None => match slant {
            Some((s2, _)) => s2 as int,
            None => size_start as int,
        },
    }
}

/// The (family, weight, slant, size) of a font name's bytes `b`, given where its
/// matches lie: the size at `size`, the slant word at `slant` (if any), and
/// `Bold` starting at `bold` (if any). `None` when the size does not read as an
/// `i32`. The slant is italic or oblique as the slant match spells, the weight
/// is bold when `Bold` matched, and the family is the text before the first
/// match.
pub open spec fn font_from_spans(b: Seq<u8>, size: (usize, usize), slant: Option<(usize, usize)>, bold: Option<usize>)
    -> Option<(Seq<char>, FontWeight, FontSlant, i32)> {
    match i32_of_bytes(b.subrange(size.0 as int, size.1 as int)) {
        None => None,
        Some(sz) => {
            let kind = match slant {
                Some((s2, e2)) => if b.subrange(s2 as int, e2 as int) == italic_bytes() {
                    FontSlant::Italic
                } else if b.subrange(s2 as int, e2 as int) == oblique_bytes() {
                    FontSlant::Oblique
                } else {
                    FontSlant::Normal
                },
                None => FontSlant::Normal,
            };
            let weight = if bold is Some { FontWeight::Bold } else { FontWeight::Normal };
            Some((decode_utf8(b.subrange(0, family_end(size.0, slant, bold))), weight, kind, sz))
        },
    }
}

/// The matches lie as the regular expressions find them: the size within the
/// name and starting on a character boundary, the slant word within the text
/// before the size, `Bold` within the text before the slant word (or the size).
pub open spec fn spans_ok(b: Seq<u8>, size: (usize, usize), slant: Option<(usize, usize)>, bold: Option<usize>) -> bool {
    let (s1, e1) = size;
    let k1: int = match slant { Some((s2, _)) => s2 as int, None => s1 as int };
    &&& s1 <= e1 <= b.len()
    &&& is_char_boundary(b, s1 as int)
    &&& slant matches Some((s2, e2)) ==> s2 <= e2 <= s1 && is_char_boundary(b.subrange(0, s1 as int), s2 as int)
    &&& bold matches Some(s3) ==> s3 <= k1 && is_char_boundary(b.subrange(0, k1), s3 as int)
}

/// The (family, weight, slant, size) a font name such as `Liberation Sans Bold
/// Italic 12` describes, or `None` when it does not end in a two-digit size. The
/// size is the two-digit match at the end; the slant is the first `Italic` or
/// `Oblique` before it; the weight is bold when `Bold` occurs before the size and
/// the slant; the family is the text before the first of these.
pub open spec fn font_of(text: Seq<char>) -> Option<(Seq<char>, FontWeight, FontSlant, i32)> {
    let b = encode_utf8(text);
    match regex_first(size_pattern(), text) {
        None => None,
        Some((s1, e1)) => {
            let m2 = regex_first(slant_pattern(), decode_utf8(b.subrange(0, s1 as int)));
            let k1: int = match m2 { Some((s2, _)) => s2 as int, None => s1 as int };
            let m3 = regex_first("Bold"@, decode_utf8(b.subrange(0, k1)));
            font_from_spans(b, (s1, e1), m2, match m3 { Some((s3, _)) => Some(s3), None => None })
        },
    }
}

/// The weight and family a font name reads as: the size is the two-digit match
/// at the end; `Bold` is looked for in the text before the slant word (or before
/// the size when there is no slant word), whether or not a slant word is
/// present; when found, the font is bold and its family is the text before
/// `Bold`, otherwise it is of normal weight and its family is all of that text.
/// The slant is italic or oblique as the slant word spells, normal without one.
pub proof fn lemma_bold_weight_and_family(text: Seq<char>)
    ensures
        font_of(text) matches Some((fam, w, sl, sz)) ==> {
            let b = encode_utf8(text);
            let (s1, e1) = regex_first("\\d{2}$|\\d{2}$"@, text)->0;
            let before_slant: int = match regex_first("Italic|Oblique"@, decode_utf8(b.subrange(0, s1 as int))) {
                Some((s2, _)) => s2 as int,
                None => s1 as int,
            };
            &&& Some(sz) == i32_of_bytes(b.subrange(s1 as int, e1 as int))
            &&& match regex_first("Italic|Oblique"@, decode_utf8(b.subrange(0, s1 as int))) {
                Some((s2, e2)) => {
                    &&& (sl == FontSlant::Italic <==> b.subrange(s2 as int, e2 as int) == seq![73u8, 116u8, 97u8, 108u8, 105u8, 99u8])
                    &&& (sl == FontSlant::Oblique <==> b.subrange(s2 as int, e2 as int) == seq![79u8, 98u8, 108u8, 105u8, 113u8, 117u8, 101u8])
                },
                None => sl == FontSlant::Normal,
            }
            &&& match regex_first("Bold"@, decode_utf8(b.subrange(0, before_slant))) {
                Some((s3, _)) => w == FontWeight::Bold && fam == decode_utf8(b.subrange(0, s3 as int)),
                None => w == FontWeight::Normal && fam == decode_utf8(b.subrange(0, before_slant)),
            }
        },
        regex_first("\\d{2}$|\\d{2}$"@, text) is None ==> font_of(text) is None,
{
}


/// Whether `b[lo..hi]` are the bytes `lit`.
fn bytes_are(b: &[u8], lo: usize, hi: usize, lit: &[u8]) -> (r: bool)
    requires
        lo <= hi <= b@.len(),
    ensures
        r == (b@.subrange(lo as int, hi as int) == lit@),
{
    if hi - lo != lit.len() {
        return false;
    }
    let mut k: usize = 0;
    while k < lit.len()
        invariant
            lo <= hi <= b@.len(),
            hi - lo == lit@.len(),
            k <= lit@.len(),
            forall|q: int| 0 <= q < k ==> b@[lo + q] == lit@[q],
        decreases lit@.len() - k,
    {
        if b[lo + k] != lit[k] {
            assert(b@.subrange(lo as int, hi as int)[k as int] != lit@[k as int]);
            return false;
        }
        k = k + 1;
    }
    assert(b@.subrange(lo as int, hi as int) =~= lit@);
    true
}

proof fn lemma_prefix_view(p: &str, whole: Seq<u8>, k: int)
    requires
        p.spec_bytes() == whole.subrange(0, k),
    ensures
        p@ == decode_utf8(whole.subrange(0, k)),
{
    vstd::utf8::encode_utf8_decode_utf8(p@);
}

/// Reads a font name from where its matches lie (see `font_from_spans`): the
/// size match, the slant word's match in the text before it, and the start of
/// `Bold` in the text before that.
#[verifier::rlimit(50)]
#[verifier::spinoff_prover]
pub fn font_from_matches(font: &str, size: (usize, usize), slant: Option<(usize, usize)>, bold: Option<usize>)
    -> (r: Option<FontData>)
    requires
        spans_ok(font.spec_bytes(), size, slant, bold),
    ensures
        match font_from_spans(font.spec_bytes(), size, slant, bold) {
            Some(f) => r matches Some(d) && f == (d.font_family@, d.font_weight, d.font_slant, d.font_size),
            None => r is None,
        },
{
    let b = font.as_bytes();
    let ghost whole = font.spec_bytes();
    let (s1, e1) = size;
    let font_size = match parse_i32(b, s1, e1) {
        Some(v) => v,
        None => return None,
    };
    let (p0, _) = font.split_at(s1);
    let mut font_slant = FontSlant::Normal;
    let mut prefix = p0;
    match slant {
        Some((s2, e2)) => {
            let italic: [u8; 6] = [73u8, 116u8, 97u8, 108u8, 105u8, 99u8];
            let oblique: [u8; 7] = [79u8, 98u8, 108u8, 105u8, 113u8, 117u8, 101u8];
            assert(italic@ =~= italic_bytes());
            assert(oblique@ =~= oblique_bytes());
            if bytes_are(b, s2, e2, &italic) {
                font_slant = FontSlant::Italic;
            } else if bytes_are(b, s2, e2, &oblique) {
                font_slant = FontSlant::Oblique;
            }
            let (p1, _) = p0.split_at(s2);
            prefix = p1;
        },
        None => {},
    }
    let ghost k1: int = match slant { Some((s2, _)) => s2 as int, None => s1 as int };
    assert(prefix.spec_bytes() =~= whole.subrange(0, k1));
    let mut font_weight = FontWeight::Normal;
    let mut family_text = prefix;
    match bold {
        Some(s3) => {
            font_weight = FontWeight::Bold;
            let (p2, _) = prefix.split_at(s3);
            family_text = p2;
        },
        None => {},
    }
    let ghost k2: int = family_end(s1, slant, bold);
    assert(family_text.spec_bytes() =~= whole.subrange(0, k2));
    proof { lemma_prefix_view(family_text, whole, k2); }
    Some(FontData { font_family: family_text.to_owned(), font_weight, font_slant, font_size })
}

impl FontData {
    /// The standard font: Liberation Sans, normal weight and slant, 12 points.
    pub fn create_standard_font() -> (r: FontData)
        ensures
            r.font_family@ == "Liberation Sans"@,
            r.font_weight == FontWeight::Normal,
            r.font_slant == FontSlant::Normal,
            r.font_size == 12,
    {
        FontData {
            font_family: "Liberation Sans".to_owned(),
            font_weight: FontWeight::Normal,
            font_slant: FontSlant::Normal,
            font_size: 12,
        }
    }

    /// Reads a font name such as `Liberation Sans Bold Italic 12` (see `font_of`).
    pub fn new_from_string(font: &str) -> (r: FontData)
        requires
            font_of(font@) is Some,
        ensures
            font_of(font@) == Some((r.font_family@, r.font_weight, r.font_slant, r.font_size)),
    {
        let ghost whole = font.spec_bytes();
        let (s1, e1) = match regex_find("\\d{2}$|\\d{2}$", font) {
            Some(m) => m,
            None => return FontData::create_standard_font(),
        };
        let (p0, _) = font.split_at(s1);
        proof { lemma_prefix_view(p0, whole, s1 as int); }
        let m2 = regex_find("Italic|Oblique", p0);
        let p1 = match m2 {
            Some((s2, _)) => {
                let (p1, _) = p0.split_at(s2);
                p1
            },
            None => p0,
        };
        let ghost k1: int = match m2 { Some((s2, _)) => s2 as int, None => s1 as int };
        assert(p1.spec_bytes() =~= whole.subrange(0, k1));
        proof { lemma_prefix_view(p1, whole, k1); }
        let m3 = match regex_find("Bold", p1) {
            Some((s3, _)) => Some(s3),
            None => None,
        };
        match font_from_matches(font, (s1, e1), m2, m3) {
            Some(f) => f,
            None => FontData::create_standard_font(),
        }
    }

    /// The font name this font is read from: the family, then ` Oblique` or
    /// ` Italic`, then ` Bold`, then the size.
    pub fn description(&self) -> (r: String)
        ensures
            r@ == self.font_family@ + match self.font_slant {
                FontSlant::Normal => Seq::<char>::empty(),
                FontSlant::Oblique => " Oblique"@,
                FontSlant::Italic => " Italic"@,
            } + match self.font_weight {
                FontWeight::Normal => Seq::<char>::empty(),
                FontWeight::Bold => " Bold"@,
            } + decimal(self.font_size as int),
    {
        let mut font = self.font_family.clone();
        match self.font_slant {
            FontSlant::Normal => {},
            FontSlant::Oblique => font.append(" Oblique"),
            FontSlant::Italic => font.append(" Italic"),
        }
        match self.font_weight {
            FontWeight::Normal => {},
            FontWeight::Bold => font.append(" Bold"),
        }
        let size = decimal_string(self.font_size);
        font.append(size.as_str());
        font
    }
}

/// Reads a font name when it ends in a two-digit size that reads as a number;
/// `None` otherwise.
pub fn parse_font(font: &str) -> (r: Option<FontData>)
    ensures
        match font_of(font@) {
            Some(f) => r matches Some(d) && f == (d.font_family@, d.font_weight, d.font_slant, d.font_size),
            None => r is None,
        },
{
    match regex_find("\\d{2}$|\\d{2}$", font) {
        Some((s, e)) => match parse_i32(font.as_bytes(), s, e) {
            Some(_) => Some(FontData::new_from_string(font)),
            None => None,
        },
        None => None,
    }
}

} // verus!
