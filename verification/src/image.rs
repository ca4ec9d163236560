//! Image references: a `name` and a `tag`, written `name` or `name:tag`.
use vstd::prelude::*;

verus! {

/// An image reference: a name and a tag. Parsing never yields one with an
/// empty name.
#[derive(Debug, PartialEq, Eq)]
pub struct ImageReference {
    pub name: String,
    pub tag: String,
}

/// Rejection of a reference string: empty name, or more than one `:`.
#[derive(Debug, Clone, Copy, PartialEq, Eq)]
pub enum ImageRefError {
    Malformed,
}

/// Holds when `s` contains no `:` at all.
pub open spec fn no_colon(s: Seq<char>) -> bool {
    forall|i: int| 0 <= i < s.len() ==> s[i] != ':'
}

/// Holds when the only `:` in `s` stands at index `i`.
pub open spec fn lone_colon_at(s: Seq<char>, i: int) -> bool {
    &&& 0 <= i < s.len()
    &&& s[i] == ':'
    &&& forall|j: int| 0 <= j < s.len() && j != i ==> s[j] != ':'
}

/// What parsing an image reference yields: split on the only `:` if there is
/// one, tag `latest` if there is none; no result for an empty name or a
/// second `:`.
pub open spec fn parse_image_spec(s: Seq<char>) -> Option<(Seq<char>, Seq<char>)> {
    if s.len() > 0 && no_colon(s) {
        Some((s, "latest"@))
    } else if exists|i: int| lone_colon_at(s, i) {
        let i = choose|i: int| lone_colon_at(s, i);
        if i > 0 {
            Some((s.subrange(0, i), s.subrange(i + 1, s.len() as int)))
        } else {
            None
        }
    } else {
        None
    }
}

/// Splits an image reference into name and tag. The tag defaults to
/// `latest` when the reference carries none; a reference with an empty
/// name or more than one `:` is rejected.
pub fn parse_image(image: &str) -> (r: Result<ImageReference, ImageRefError>)
    ensures
        match r {
            Ok(ir) => parse_image_spec(image@) == Some((ir.name@, ir.tag@)),
            Err(e) => parse_image_spec(image@) is None && e == ImageRefError::Malformed,
        },
{
    let len = image.unicode_len();
    let mut first: Option<usize> = None;
    let mut second: Option<usize> = None;
    let mut k: usize = 0;
    while k < len
        invariant
            len == image@.len(),
            k <= len,
            first is None ==> second is None,
            first is None ==> forall|j: int| 0 <= j < k ==> image@[j] != ':',
            first matches Some(f) ==> f < k && image@[f as int] == ':',
            first matches Some(f) ==> second is None ==> forall|j: int|
                0 <= j < k && j != f ==> image@[j] != ':',
            second matches Some(g) ==> g < k && image@[g as int] == ':'
                && (first matches Some(f) && f < g),
        decreases len - k,
    {
        let c = image.get_char(k);
        if c == ':' {
            if first.is_none() {
                first = Some(k);
            } else if second.is_none() {
                second = Some(k);
            }
        }
        k += 1;
    }
    match (first, second) {
        (None, _) => {
            if len > 0 {
                Ok(ImageReference { name: image.to_owned(), tag: "latest".to_owned() })
            } else {
                Err(ImageRefError::Malformed)
            }
        },
        (Some(f), None) => {
            proof {
                assert(lone_colon_at(image@, f as int));
                let i = choose|i: int| lone_colon_at(image@, i);
                assert(i == f as int);
            }
            if f > 0 {
                let name = image.substring_char(0, f).to_owned();
                let tag = image.substring_char(f + 1, len).to_owned();
                Ok(ImageReference { name, tag })
            } else {
                Err(ImageRefError::Malformed)
            }
        },
        (Some(f), Some(g)) => {
            proof {
                assert forall|i: int| !lone_colon_at(image@, i) by {
                    if lone_colon_at(image@, i) {
                        if i != f as int {
                            assert(image@[f as int] == ':');
                        } else {
                            assert(image@[g as int] == ':');
                        }
                    }
                }
            }
            Err(ImageRefError::Malformed)
        },
    }
}

} // verus!
