//! Keyword-based text classification and simple text features, as run by
//! the userland analyzer program.
use vstd::prelude::*;
use vstd::string::{StrSliceExecFns, StringSliceAdditionalSpecFns};

verus! {

/// Size of the lowered-text buffer, terminator included.
pub const TEXT_BUFFER: usize = 256;

/// Longest text that is classified; longer texts count as data.
pub const MAX_TEXT: usize = 255;

/// Kind of text.
#[derive(Debug, Clone, Copy, PartialEq, Eq, Structural)]
pub enum TextCategory {
    Technical,
    Creative,
    Data,
}

/// Counts and flags of a text.
#[derive(Debug, Clone, Copy, PartialEq, Eq, Structural)]
pub struct TextFeatures {
    pub char_count: usize,
    pub word_count: usize,
    pub has_numbers: bool,
    pub has_punctuation: bool,
}

/// `b` with ASCII upper-case letters turned to lower case.
pub open spec fn ascii_lower(b: u8) -> u8 {
    if 65 <= b <= 90 {
        (b + 32) as u8
    } else {
        b
    }
}

fn to_ascii_lower(b: u8) -> (r: u8)
    ensures
        r == ascii_lower(b),
{
    if 65 <= b && b <= 90 {
        b + 32
    } else {
        b
    }
}

/// Index of the first zero byte of `t` at or after `i`, or its length.
pub open spec fn first_zero(t: Seq<u8>, i: int) -> int
    decreases t.len() - i,
{
    if i < 0 || i >= t.len() {
        t.len() as int
    } else if t[i] == 0 {
        i
    } else {
        first_zero(t, i + 1)
    }
}

/// `kw`, lowered, occurs in `t` at `i`.
pub open spec fn keyword_at(t: Seq<u8>, kw: Seq<u8>, i: int) -> bool {
    forall|j: int| 0 <= j < kw.len() ==> #[trigger] t[i + j] == ascii_lower(kw[j])
}

/// Whether the lowered text `t` (zero-terminated in its buffer) holds `kw`.
pub open spec fn contains_spec(t: Seq<u8>, kw: Seq<u8>) -> bool {
    let kl = kw.len() as int;
    let tl = first_zero(t, 0);
    let last = if tl > kl { tl - kl } else { 0 };
    &&& 0 < kl <= TEXT_BUFFER
    &&& exists|i: int| 0 <= i <= last && #[trigger] keyword_at(t, kw, i)
}

/// The buffer the classifier works on: the first `MAX_TEXT` bytes of the
/// text lowered, then zeros.
pub open spec fn lowered(bytes: Seq<u8>) -> Seq<u8> {
    Seq::new(TEXT_BUFFER as nat, |i: int| if i < bytes.len() && i < MAX_TEXT { ascii_lower(bytes[i]) } else { 0u8 })
}

/// How many of the first `n` keywords the lowered text holds.
pub open spec fn score(t: Seq<u8>, kws: Seq<&str>, n: int) -> nat
    decreases n,
{
    if n <= 0 {
        0
    } else {
        score(t, kws, n - 1) + if contains_spec(t, kws[n - 1].spec_bytes()) { 1nat } else { 0nat }
    }
}

/// Highest score wins; ties go to technical, then creative; no match at
/// all means data.
pub open spec fn decide(tech: nat, creative: nat, data: nat) -> TextCategory {
    if tech >= creative && tech >= data && tech > 0 {
        TextCategory::Technical
    } else if creative >= data && creative > 0 {
        TextCategory::Creative
    } else {
        TextCategory::Data
    }
}

/// Whether `c` has the Unicode White_Space property.
pub open spec fn whitespace(c: char) -> bool {
    let u = c as u32;
    (0x09 <= u <= 0x0d) || u == 0x20 || u == 0x85 || u == 0xa0 || u == 0x1680 || (0x2000 <= u <= 0x200a)
        || u == 0x2028 || u == 0x2029 || u == 0x202f || u == 0x205f || u == 0x3000
}

fn is_whitespace(c: char) -> (r: bool)
    ensures
        r == whitespace(c),
{
    let u = c as u32;
    (0x09 <= u && u <= 0x0d) || u == 0x20 || u == 0x85 || u == 0xa0 || u == 0x1680 || (0x2000 <= u
        && u <= 0x200a) || u == 0x2028 || u == 0x2029 || u == 0x202f || u == 0x205f || u == 0x3000
}

/// What `char::is_numeric` answers for `c` (a Unicode number category).
pub uninterp spec fn numeric_char(c: char) -> bool;

/// What `char::is_alphanumeric` answers for `c` (a Unicode letter or
/// number category).
pub uninterp spec fn alphanumeric_char(c: char) -> bool;

/// Relies on `char::is_numeric`: whether `c` is in a Unicode number category.
#[verifier::external_body]
fn char_is_numeric(c: char) -> (r: bool)
    ensures
        r == numeric_char(c),
{
    c.is_numeric()
}

/// Relies on `char::is_alphanumeric`: whether `c` is in a Unicode letter or
/// number category.
#[verifier::external_body]
fn char_is_alphanumeric(c: char) -> (r: bool)
    ensures
        r == alphanumeric_char(c),
{
    c.is_alphanumeric()
}

/// Number of words (maximal runs of non-whitespace) among the first `n`
/// characters.
pub open spec fn word_starts(s: Seq<char>, n: int) -> nat
    decreases n,
{
    if n <= 0 {
        0
    } else {
        word_starts(s, n - 1) + if !whitespace(s[n - 1]) && (n - 1 == 0 || whitespace(s[n - 2])) {
            1nat
        } else {
            0nat
        }
    }
}

/// The features of a text.
pub open spec fn features_spec(s: Seq<char>) -> TextFeatures {
    TextFeatures {
        char_count: s.len() as usize,
        word_count: word_starts(s, s.len() as int) as usize,
        has_numbers: exists|i: int| 0 <= i < s.len() && numeric_char(#[trigger] s[i]),
        has_punctuation: exists|i: int| 0 <= i < s.len() && !alphanumeric_char(#[trigger] s[i]) && !whitespace(s[i]),
    }
}

/// Classifies texts by the keywords they hold.
pub struct TextAnalyzer {
    pub tech_keywords: Vec<&'static str>,
    pub creative_keywords: Vec<&'static str>,
    pub data_keywords: Vec<&'static str>,
}

impl TextAnalyzer {
    /// The analyzer with its technical, creative and data keyword lists.
    pub fn new() -> (r: TextAnalyzer)
        ensures
            r.tech_keywords@.len() == 15,
            r.creative_keywords@.len() == 16,
            r.data_keywords@.len() == 13,
    {
        TextAnalyzer {
            tech_keywords: vec![
                "code", "program", "kernel", "memory", "cpu", "system", "os", "rust", "compile",
                "algorithm", "software", "hardware", "computer", "programming", "development",
            ],
            creative_keywords: vec![
                "design", "art", "music", "write", "writing", "create", "story", "stories", "image",
                "video", "creative", "aesthetic", "beautiful", "interface", "ui", "ux",
            ],
            data_keywords: vec![
                "data", "analyze", "chart", "graph", "statistics", "database", "query", "search",
                "analytics", "visualization", "pattern", "trend", "model",
            ],
        }
    }

    /// Whether the lowered, zero-terminated text holds `keyword`, compared
    /// case-insensitively.
    pub fn contains_keyword(&self, text_lower: &[u8; 256], keyword: &str) -> (r: bool)
        ensures
            r == contains_spec(text_lower@, keyword.spec_bytes()),
    {
        let kw = keyword.as_bytes();
        let kl = kw.len();
        if kl == 0 || kl > TEXT_BUFFER {
            return false;
        }
        let mut tl: usize = 0;
        while tl < TEXT_BUFFER && text_lower[tl] != 0
            invariant
                0 <= tl <= TEXT_BUFFER,
                text_lower@.len() == TEXT_BUFFER,
                first_zero(text_lower@, 0) == first_zero(text_lower@, tl as int),
            decreases TEXT_BUFFER - tl,
        {
            tl = tl + 1;
        }
        let last = if tl > kl { tl - kl } else { 0 };
        let mut i: usize = 0;
        while i <= last
            invariant
                0 <= i <= last + 1,
                last + kl <= TEXT_BUFFER,
                text_lower@.len() == TEXT_BUFFER,
                kw@ == keyword.spec_bytes(),
                kl == kw@.len(),
                0 < kl <= TEXT_BUFFER,
                last == (if first_zero(text_lower@, 0) > kl { first_zero(text_lower@, 0) - kl } else { 0 }),
                forall|p: int| 0 <= p < i ==> !#[trigger] keyword_at(text_lower@, kw@, p),
            decreases last + 1 - i,
        {
            let mut matches = true;
            let mut j: usize = 0;
            while j < kl
                invariant
                    0 <= j <= kl,
                    i <= last,
                    last + kl <= TEXT_BUFFER,
                    text_lower@.len() == TEXT_BUFFER,
                    kl == kw@.len(),
                    matches ==> forall|q: int| 0 <= q < j ==> #[trigger] text_lower@[i + q] == ascii_lower(kw@[q]),
                    !matches ==> !keyword_at(text_lower@, kw@, i as int),
                ensures
                    matches ==> keyword_at(text_lower@, kw@, i as int),
                    !matches ==> !keyword_at(text_lower@, kw@, i as int),
                decreases kl - j,
            {
                let keyword_char = to_ascii_lower(kw[j]);
                if text_lower[i + j] != keyword_char {
                    matches = false;
                    break;
                }
                j = j + 1;
            }
            if matches {
                assert(keyword_at(text_lower@, kw@, i as int));
                return true;
            }
            i = i + 1;
        }
        false
    }
}

impl TextAnalyzer {
    /// How many of `keywords` the lowered text holds.
    fn count_matches(&self, text_lower: &[u8; 256], keywords: &Vec<&'static str>) -> (r: usize)
        ensures
            r == score(text_lower@, keywords@, keywords@.len() as int),
    {
        let mut n: usize = 0;
        let mut k: usize = 0;
        while k < keywords.len()
            invariant
                0 <= k <= keywords@.len(),
                n == score(text_lower@, keywords@, k as int),
                n <= k,
            decreases keywords@.len() - k,
        {
            if self.contains_keyword(text_lower, keywords[k]) {
                n = n + 1;
            }
            k = k + 1;
        }
        n
    }

    /// The category of `text`: the keyword list it matches most often wins
    /// (ties to technical, then creative); texts with no match, or longer
    /// than `MAX_TEXT` bytes, are data.
    pub fn analyze_text(&self, text: &str) -> (r: TextCategory)
        ensures
            text.spec_bytes().len() > MAX_TEXT ==> r == TextCategory::Data,
            text.spec_bytes().len() <= MAX_TEXT ==> {
                let t = lowered(text.spec_bytes());
                r == decide(
                    score(t, self.tech_keywords@, self.tech_keywords@.len() as int),
                    score(t, self.creative_keywords@, self.creative_keywords@.len() as int),
                    score(t, self.data_keywords@, self.data_keywords@.len() as int),
                )
            },
    {
        let text_bytes = text.as_bytes();
        if text_bytes.len() > MAX_TEXT {
            return TextCategory::Data;
        }
        let mut text_lower = [0u8; 256];
        let mut i: usize = 0;
        while i < text_bytes.len()
            invariant
                0 <= i <= text_bytes@.len(),
                text_bytes@.len() <= MAX_TEXT,
                text_lower@.len() == TEXT_BUFFER,
                forall|p: int| 0 <= p < i ==> #[trigger] text_lower@[p] == ascii_lower(text_bytes@[p]),
                forall|p: int| i <= p < TEXT_BUFFER ==> #[trigger] text_lower@[p] == 0,
            decreases text_bytes@.len() - i,
        {
            text_lower[i] = to_ascii_lower(text_bytes[i]);
            i = i + 1;
        }
        assert(text_lower@ =~= lowered(text.spec_bytes()));
        let tech_score = self.count_matches(&text_lower, &self.tech_keywords);
        let creative_score = self.count_matches(&text_lower, &self.creative_keywords);
        let data_score = self.count_matches(&text_lower, &self.data_keywords);
        if tech_score >= creative_score && tech_score >= data_score && tech_score > 0 {
            TextCategory::Technical
        } else if creative_score >= data_score && creative_score > 0 {
            TextCategory::Creative
        } else {
            TextCategory::Data
        }
    }

    /// Character and word counts of `text` and whether it holds digits
    /// (numeric characters) or punctuation (characters neither alphanumeric
    /// nor whitespace).
    pub fn extract_features(&self, text: &str) -> (r: TextFeatures)
        ensures
            r == features_spec(text@),
    {
        let char_count = text.unicode_len();
        let mut word_count: usize = 0;
        let mut has_numbers = false;
        let mut has_punctuation = false;
        let mut prev_space = true;
        let mut i: usize = 0;
        while i < char_count
            invariant
                0 <= i <= char_count,
                char_count == text@.len(),
                word_count == word_starts(text@, i as int),
                word_count <= i,
                i > 0 ==> prev_space == whitespace(text@[i - 1]),
                i == 0 ==> prev_space,
                has_numbers == exists|p: int| 0 <= p < i && numeric_char(#[trigger] text@[p]),
                has_punctuation == exists|p: int| 0 <= p < i && !alphanumeric_char(#[trigger] text@[p]) && !whitespace(text@[p]),
            decreases char_count - i,
        {
            let c = text.get_char(i);
            let space = is_whitespace(c);
            if !space && prev_space {
                word_count = word_count + 1;
            }
            if char_is_numeric(c) {
                has_numbers = true;
            }
            if !char_is_alphanumeric(c) && !space {
                has_punctuation = true;
            }
            prev_space = space;
            proof {
                let s = text@;
                assert(s[i as int] == c);
                if has_numbers && !(exists|p: int| 0 <= p < i && numeric_char(#[trigger] s[p])) {
                    assert(numeric_char(s[i as int]));
                }
                if has_punctuation && !(exists|p: int| 0 <= p < i && !alphanumeric_char(#[trigger] s[p]) && !whitespace(s[p])) {
                    assert(!alphanumeric_char(s[i as int]) && !whitespace(s[i as int]));
                }
            }
            i = i + 1;
        }
        TextFeatures { char_count, word_count, has_numbers, has_punctuation }
    }
}

} // verus!
