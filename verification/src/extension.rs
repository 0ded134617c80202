//! File-name extensions and format hints: which ones name an image the
//! library converts, compared without regard to the case of ASCII letters.

use vstd::prelude::*;

verus! {

/// A raster format the library reads.
#[derive(Clone, Copy, Debug, PartialEq, Eq, Structural)]
pub enum SourceFormat {
    Jpeg,
    Png,
    Bmp,
    Tiff,
}

/// The lower-case form of an ASCII capital letter; every other character is
/// left as it is.
pub open spec fn lower(c: char) -> char {
    if 'A' <= c && c <= 'Z' {
        ((c as u8) + 32) as char
    } else {
        c
    }
}

/// A string with each ASCII capital letter replaced by its lower-case form.
pub open spec fn fold_case(s: Seq<char>) -> Seq<char> {
    Seq::new(s.len(), |i: int| lower(s[i]))
}

/// An extension is supported when, case folded, it is one of `jpg`, `jpeg`,
/// `png`, `bmp` and `tiff`.
pub open spec fn supported_extension(ext: Seq<char>) -> bool {
    let e = fold_case(ext);
    e == "jpg"@ || e == "jpeg"@ || e == "png"@ || e == "bmp"@ || e == "tiff"@
}

/// The format a hint stands for: `jpg` and `jpeg` both name JPEG, and a hint
/// outside the five names stands for nothing.
pub open spec fn format_of(hint: Seq<char>) -> Option<SourceFormat> {
    let h = fold_case(hint);
    if h == "jpg"@ || h == "jpeg"@ {
        Some(SourceFormat::Jpeg)
    } else if h == "png"@ {
        Some(SourceFormat::Png)
    } else if h == "bmp"@ {
        Some(SourceFormat::Bmp)
    } else if h == "tiff"@ {
        Some(SourceFormat::Tiff)
    } else {
        None
    }
}

/// Lower-cases one character as `lower` describes.
pub fn to_lower(c: char) -> (r: char)
    ensures
        r == lower(c),
{
    if 'A' <= c && c <= 'Z' {
        ((c as u8) + 32) as char
    } else {
        c
    }
}

/// Whether `text`, case folded, spells `name` exactly.
pub fn spells(text: &str, name: &str) -> (r: bool)
    ensures
        r == (fold_case(text@) == name@),
{
    let n: usize = text.unicode_len();
    if n != name.unicode_len() {
        return false;
    }
    let mut i: usize = 0;
    while i < n
        invariant
            i <= n,
            n == text@.len(),
            n == name@.len(),
            forall|j: int| 0 <= j < i ==> lower(text@[j]) == name@[j],
        decreases n - i,
    {
        if to_lower(text.get_char(i)) != name.get_char(i) {
            assert(fold_case(text@)[i as int] != name@[i as int]);
            return false;
        }
        i = i + 1;
    }
    assert(fold_case(text@) =~= name@);
    true
}

/// Checks whether an extension names an image the library converts.
pub fn is_supported_extension(ext: &str) -> (r: bool)
    ensures
        r == supported_extension(ext@),
{
    spells(ext, "jpg") || spells(ext, "jpeg") || spells(ext, "png") || spells(ext, "bmp")
        || spells(ext, "tiff")
}

/// Maps a format hint to the format it stands for, or to `None` when the hint
/// is not recognised.
pub fn format_from_hint(hint: &str) -> (r: Option<SourceFormat>)
    ensures
        r == format_of(hint@),
{
    if spells(hint, "jpg") || spells(hint, "jpeg") {
        Some(SourceFormat::Jpeg)
    } else if spells(hint, "png") {
        Some(SourceFormat::Png)
    } else if spells(hint, "bmp") {
        Some(SourceFormat::Bmp)
    } else if spells(hint, "tiff") {
        Some(SourceFormat::Tiff)
    } else {
        None
    }
}

/// Case folding changes no length and, applied twice, nothing more.
pub proof fn lemma_fold_case_idempotent(s: Seq<char>)
    ensures
        fold_case(s).len() == s.len(),
        fold_case(fold_case(s)) == fold_case(s),
{
    assert(fold_case(fold_case(s)) =~= fold_case(s));
}

/// Support does not depend on the case of ASCII letters: two extensions with
/// the same case-folded form are both supported or both unsupported, and an
/// extension is supported exactly when its case-folded form is.
pub proof fn lemma_support_ignores_case(a: Seq<char>, b: Seq<char>)
    requires
        fold_case(a) == fold_case(b),
    ensures
        supported_extension(a) == supported_extension(b),
        supported_extension(a) == supported_extension(fold_case(a)),
{
    lemma_fold_case_idempotent(a);
}

/// The supported extensions are exactly the recognised format hints.
pub proof fn lemma_supported_iff_recognised(ext: Seq<char>)
    ensures
        supported_extension(ext) <==> format_of(ext) is Some,
{
}

/// A supported extension is three or four characters long and holds neither a
/// dot nor a path separator.
pub proof fn lemma_supported_shape(ext: Seq<char>)
    requires
        supported_extension(ext),
    ensures
        3 <= ext.len() <= 4,
        forall|i: int| 0 <= i < ext.len() ==> ext[i] != '.' && ext[i] != '/',
{
    reveal_strlit("jpg");
    reveal_strlit("jpeg");
    reveal_strlit("png");
    reveal_strlit("bmp");
    reveal_strlit("tiff");
    let e = fold_case(ext);
    assert(e.len() == ext.len());
    assert("jpg"@.len() == 3 && "png"@.len() == 3 && "bmp"@.len() == 3);
    assert("jpeg"@.len() == 4 && "tiff"@.len() == 4);
    assert forall|i: int| 0 <= i < ext.len() implies ext[i] != '.' && ext[i] != '/' by {
        assert(e[i] == lower(ext[i]));
        assert('a' <= e[i] && e[i] <= 'z') by {
            assert('a' <= "jpg"@[i] <= 'z' || i >= 3);
            assert('a' <= "png"@[i] <= 'z' || i >= 3);
            assert('a' <= "bmp"@[i] <= 'z' || i >= 3);
            assert('a' <= "jpeg"@[i] <= 'z' || i >= 4);
            assert('a' <= "tiff"@[i] <= 'z' || i >= 4);
        }
    }
}

/// `webp` and `tmp`, the extensions of what the library writes, are not
/// supported in any case of their letters.
pub proof fn lemma_written_extensions_unsupported(ext: Seq<char>)
    requires
        fold_case(ext) == "webp"@ || fold_case(ext) == "tmp"@,
    ensures
        !supported_extension(ext),
{
    reveal_strlit("jpg");
    reveal_strlit("jpeg");
    reveal_strlit("png");
    reveal_strlit("bmp");
    reveal_strlit("tiff");
    reveal_strlit("webp");
    reveal_strlit("tmp");
    let e = fold_case(ext);
    assert("jpg"@[0] == 'j' && "jpeg"@[0] == 'j' && "png"@[0] == 'p' && "bmp"@[0] == 'b');
    assert("tiff"@[0] == 't' && "tiff"@[1] == 'i');
    if e == "webp"@ {
        assert(e[0] == 'w');
    } else {
        assert(e[0] == 't' && e[1] == 'm');
    }
}

} // verus!
