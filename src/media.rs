use vstd::prelude::*;

verus! {

/// The kind of content a served file holds, as its extension tells.
#[derive(Clone, Copy, Debug, PartialEq, Eq, Structural)]
pub enum MediaType {
    Html,
    Css,
    Javascript,
    Json,
    Svg,
    Png,
    Jpeg,
    Icon,
    Text,
    Wasm,
    Binary,
}

/// An ASCII letter in lower case; every other byte is kept.
pub open spec fn ascii_lower(b: u8) -> u8 {
    if 65 <= b && b <= 90 {
        (b + 32) as u8
    } else {
        b
    }
}

/// What follows the last `.` of a file name, if it holds one.
pub open spec fn extension(name: Seq<u8>) -> Option<Seq<u8>>
    decreases name.len(),
{
    if name.len() == 0 {
        None
    } else if name.last() == 46u8 {
        Some(Seq::empty())
    } else {
        match extension(name.drop_last()) {
            Some(e) => Some(e.push(name.last())),
            None => None,
        }
    }
}

/// The media type of an extension, compared without regard to case.
pub open spec fn media_of_extension(ext: Seq<u8>) -> MediaType {
    let e = ext.map_values(|b: u8| ascii_lower(b));
    if e == seq![104u8, 116, 109, 108] || e == seq![104u8, 116, 109] {
        MediaType::Html
    } else if e == seq![99u8, 115, 115] {
        MediaType::Css
    } else if e == seq![106u8, 115] || e == seq![109u8, 106, 115] {
        MediaType::Javascript
    } else if e == seq![106u8, 115, 111, 110] {
        MediaType::Json
    } else if e == seq![115u8, 118, 103] {
        MediaType::Svg
    } else if e == seq![112u8, 110, 103] {
        MediaType::Png
    } else if e == seq![106u8, 112, 103] || e == seq![106u8, 112, 101, 103] {
        MediaType::Jpeg
    } else if e == seq![105u8, 99, 111] {
        MediaType::Icon
    } else if e == seq![116u8, 120, 116] {
        MediaType::Text
    } else if e == seq![119u8, 97, 115, 109] {
        MediaType::Wasm
    } else {
        MediaType::Binary
    }
}

/// The media type of a file name: by its extension, or binary without one.
pub open spec fn media_of_name(name: Seq<u8>) -> MediaType {
    match extension(name) {
        Some(e) => media_of_extension(e),
        None => MediaType::Binary,
    }
}

fn lower_byte(b: u8) -> (r: u8)
    ensures
        r == ascii_lower(b),
{
    if 65 <= b && b <= 90 {
        b + 32
    } else {
        b
    }
}

/// Whether `ext` spells `word` when its letters are put in lower case.
fn spells(ext: &[u8], word: &[u8]) -> (r: bool)
    ensures
        r == (ext@.map_values(|b: u8| ascii_lower(b)) == word@),
{
    if ext.len() != word.len() {
        assert(ext@.map_values(|b: u8| ascii_lower(b)).len() != word@.len());
        return false;
    }
    let mut i: usize = 0;
    while i < ext.len()
        invariant
            i <= ext@.len(),
            ext@.len() == word@.len(),
            forall|j: int| 0 <= j < i ==> ascii_lower(#[trigger] ext@[j]) == word@[j],
        decreases ext@.len() - i,
    {
        if lower_byte(ext[i]) != word[i] {
            assert(ext@.map_values(|b: u8| ascii_lower(b))[i as int] != word@[i as int]);
            return false;
        }
        i = i + 1;
    }
    assert(ext@.map_values(|b: u8| ascii_lower(b)) =~= word@);
    true
}

fn last_dot(name: &[u8]) -> (r: Option<usize>)
    ensures
        match r {
            Some(k) => 0 < k <= name@.len() && extension(name@) == Some(
                name@.subrange(k as int, name@.len() as int),
            ),
            None => extension(name@) is None,
        },
{
    let mut k: usize = name.len();
    while k > 0
        invariant
            k <= name@.len(),
            forall|j: int| k <= j < name@.len() ==> name@[j] != 46u8,
        decreases k,
    {
        if name[k - 1] == 46u8 {
            proof {
                lemma_extension_after(name@, k - 1);
            }
            return Some(k);
        }
        k = k - 1;
    }
    proof {
        lemma_no_extension(name@);
    }
    None
}

proof fn lemma_extension_after(name: Seq<u8>, k: int)
    requires
        0 <= k < name.len(),
        name[k] == 46u8,
        forall|j: int| k < j < name.len() ==> name[j] != 46u8,
    ensures
        extension(name) == Some(name.subrange(k + 1, name.len() as int)),
    decreases name.len(),
{
    if k < name.len() - 1 {
        lemma_extension_after(name.drop_last(), k);
        assert(name.subrange(k + 1, name.len() - 1).push(name.last()) =~= name.subrange(
            k + 1,
            name.len() as int,
        ));
    } else {
        assert(name.subrange(k + 1, name.len() as int) =~= Seq::<u8>::empty());
    }
}

proof fn lemma_no_extension(name: Seq<u8>)
    requires
        forall|j: int| 0 <= j < name.len() ==> name[j] != 46u8,
    ensures
        extension(name) is None,
    decreases name.len(),
{
    if name.len() > 0 {
        lemma_no_extension(name.drop_last());
    }
}

/// The media type of a file, from its name.
pub fn media_type(name: &[u8]) -> (r: MediaType)
    ensures
        r == media_of_name(name@),
{
    match last_dot(name) {
        None => MediaType::Binary,
        Some(k) => {
            let mut ext: Vec<u8> = Vec::new();
            let mut i: usize = k;
            assert(ext@ =~= name@.subrange(k as int, i as int));
            while i < name.len()
                invariant
                    k <= i <= name@.len(),
                    ext@ == name@.subrange(k as int, i as int),
                decreases name@.len() - i,
            {
                ext.push(name[i]);
                i = i + 1;
                assert(ext@ =~= name@.subrange(k as int, i as int));
            }
            let e = ext.as_slice();
            if spells(e, &[104u8, 116, 109, 108]) || spells(e, &[104u8, 116, 109]) {
                MediaType::Html
            } else if spells(e, &[99u8, 115, 115]) {
                MediaType::Css
            } else if spells(e, &[106u8, 115]) || spells(e, &[109u8, 106, 115]) {
                MediaType::Javascript
            } else if spells(e, &[106u8, 115, 111, 110]) {
                MediaType::Json
            } else if spells(e, &[115u8, 118, 103]) {
                MediaType::Svg
            } else if spells(e, &[112u8, 110, 103]) {
                MediaType::Png
            } else if spells(e, &[106u8, 112, 103]) || spells(e, &[106u8, 112, 101, 103]) {
                MediaType::Jpeg
            } else if spells(e, &[105u8, 99, 111]) {
                MediaType::Icon
            } else if spells(e, &[116u8, 120, 116]) {
                MediaType::Text
            } else if spells(e, &[119u8, 97, 115, 109]) {
                MediaType::Wasm
            } else {
                MediaType::Binary
            }
        },
    }
}

} // verus!
