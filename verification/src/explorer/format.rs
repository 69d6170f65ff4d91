//! The audio formats that can be played, and how a file extension names one.

use vstd::prelude::*;

verus! {

/// An audio format the player can decode.
#[derive(Debug, Clone, Copy, PartialEq, Eq, Structural)]
#[allow(clippy::upper_case_acronyms)]
pub enum SupportedFormat {
    AAC,
    FLAC,
    MP3,
    OGG,
    WAV,
}

/// The code of `c`, with the upper-case ASCII letters mapped to lower case.
pub open spec fn ascii_lowercase_code(c: char) -> u32 {
    let n = c as u32;
    if 0x41 <= n <= 0x5a {
        (n + 0x20) as u32
    } else {
        n
    }
}

/// Whether `a` and `b` are the same text when ASCII letters are compared
/// without regard to case.
pub open spec fn eq_ignore_ascii_case(a: Seq<char>, b: Seq<char>) -> bool {
    &&& a.len() == b.len()
    &&& forall|i: int|
        0 <= i < a.len() ==> ascii_lowercase_code(#[trigger] a[i]) == ascii_lowercase_code(b[i])
}

/// The format that the extension `ext` names, if any: the one whose own
/// extension equals `ext` up to the case of ASCII letters.
pub open spec fn classify(ext: Seq<char>) -> Option<SupportedFormat> {
    if eq_ignore_ascii_case(ext, SupportedFormat::AAC.extension()) {
        Some(SupportedFormat::AAC)
    } else if eq_ignore_ascii_case(ext, SupportedFormat::FLAC.extension()) {
        Some(SupportedFormat::FLAC)
    } else if eq_ignore_ascii_case(ext, SupportedFormat::MP3.extension()) {
        Some(SupportedFormat::MP3)
    } else if eq_ignore_ascii_case(ext, SupportedFormat::OGG.extension()) {
        Some(SupportedFormat::OGG)
    } else if eq_ignore_ascii_case(ext, SupportedFormat::WAV.extension()) {
        Some(SupportedFormat::WAV)
    } else {
        None
    }
}

fn lowercase_code(c: char) -> (n: u32)
    ensures
        n == ascii_lowercase_code(c),
{
    let n: u32 = c as u32;
    if 0x41 <= n && n <= 0x5a {
        n + 0x20
    } else {
        n
    }
}

/// Compares two texts without regard to the case of ASCII letters.
pub fn same_ignoring_ascii_case(a: &str, b: &str) -> (same: bool)
    ensures
        same == eq_ignore_ascii_case(a@, b@),
{
    let x: Vec<char> = chars_of(a);
    let y: Vec<char> = chars_of(b);
    if x.len() != y.len() {
        return false;
    }
    let mut i: usize = 0;
    while i < x.len()
        invariant
            i <= x.len(),
            x.len() == y.len(),
            x@ == a@,
            y@ == b@,
            forall|j: int| 0 <= j < i ==> ascii_lowercase_code(#[trigger] x@[j]) == ascii_lowercase_code(y@[j]),
        decreases x.len() - i,
    {
        if lowercase_code(x[i]) != lowercase_code(y[i]) {
            assert(ascii_lowercase_code(a@[i as int]) != ascii_lowercase_code(b@[i as int]));
            return false;
        }
        i += 1;
    }
    true
}

/// The characters of `s`, in order.
pub fn chars_of(s: &str) -> (v: Vec<char>)
    ensures
        v@ == s@,
{
    let mut v: Vec<char> = Vec::new();
    for c in it: s.chars()
        invariant
            it.seq() == s@,
            v@ == it.seq().take(it.index() as int),
    {
        v.push(c);
    }
    v
}

impl SupportedFormat {
    /// The extension, in lower case, that files of this format carry.
    pub open spec fn extension(self) -> Seq<char> {
        match self {
            SupportedFormat::AAC => seq!['a', 'a', 'c'],
            SupportedFormat::FLAC => seq!['f', 'l', 'a', 'c'],
            SupportedFormat::MP3 => seq!['m', 'p', '3'],
            SupportedFormat::OGG => seq!['o', 'g', 'g'],
            SupportedFormat::WAV => seq!['w', 'a', 'v'],
        }
    }

    /// Every supported format, in the order in which extensions are tried.
    pub fn all() -> (formats: Vec<SupportedFormat>)
        ensures
            formats@ == seq![
                SupportedFormat::AAC,
                SupportedFormat::FLAC,
                SupportedFormat::MP3,
                SupportedFormat::OGG,
                SupportedFormat::WAV,
            ],
    {
        vec![
            SupportedFormat::AAC,
            SupportedFormat::FLAC,
            SupportedFormat::MP3,
            SupportedFormat::OGG,
            SupportedFormat::WAV,
        ]
    }

    /// The extension of the format as text.
    pub fn as_str(&self) -> (s: &'static str)
        ensures
            s@ == self.extension(),
    {
        proof {
            reveal_strlit("aac");
            reveal_strlit("flac");
            reveal_strlit("mp3");
            reveal_strlit("ogg");
            reveal_strlit("wav");
        }
        let s: &'static str = match self {
            SupportedFormat::AAC => "aac",
            SupportedFormat::FLAC => "flac",
            SupportedFormat::MP3 => "mp3",
            SupportedFormat::OGG => "ogg",
            SupportedFormat::WAV => "wav",
        };
        assert(s@ =~= self.extension());
        s
    }

    /// The extension of the format as an owned string.
    pub fn to_string(&self) -> (s: String)
        ensures
            s@ == self.extension(),
    {
        self.as_str().to_owned()
    }

    /// Finds the format that the extension `ext` names. The match is exact
    /// but for the case of ASCII letters; any other text, the empty one
    /// included, names no format.
    pub fn try_from(ext: &str) -> (found: Result<SupportedFormat, ()>)
        ensures
            found == match classify(ext@) {
                Some(format) => Ok::<SupportedFormat, ()>(format),
                None => Err::<SupportedFormat, ()>(()),
            },
    {
        let formats: Vec<SupportedFormat> = SupportedFormat::all();
        let mut i: usize = 0;
        while i < formats.len()
            invariant
                i <= formats.len(),
                formats@ == seq![
                    SupportedFormat::AAC,
                    SupportedFormat::FLAC,
                    SupportedFormat::MP3,
                    SupportedFormat::OGG,
                    SupportedFormat::WAV,
                ],
                forall|j: int| 0 <= j < i ==> !eq_ignore_ascii_case(ext@, #[trigger] formats@[j].extension()),
            decreases formats.len() - i,
        {
            let format: SupportedFormat = formats[i];
            if same_ignoring_ascii_case(ext, format.as_str()) {
                return Ok(format);
            }
            i += 1;
        }
        Err(())
    }
}

/// Each format is named by its own extension, whatever the case of the letters
/// in which the extension is written.
pub proof fn lemma_extension_names_its_format(format: SupportedFormat, ext: Seq<char>)
    requires
        eq_ignore_ascii_case(ext, format.extension()),
    ensures
        classify(ext) == Some(format),
{
    let e = format.extension();
    assert(ext.len() == e.len());
    assert(ascii_lowercase_code(ext[0]) == ascii_lowercase_code(e[0]));
    assert(ascii_lowercase_code(ext[1]) == ascii_lowercase_code(e[1]));
    assert(ascii_lowercase_code(ext[2]) == ascii_lowercase_code(e[2]));
}

} // verus!
