//! The generation service's side of a request: the body sent for a prompt
//! and the one image location taken from what comes back.
use vstd::prelude::*;
use crate::json::{chars_of, push_quoted, quoted, string_of};

verus! {

/// Why a generation request produced no image.
#[derive(Clone, Copy, Debug, PartialEq, Eq, Structural)]
pub enum GenerationError {
    /// The request could not be sent, or no answer came back.
    Transport,
    /// An answer came back that could not be read.
    Malformed,
    /// The answer listed no image.
    NoImage,
}

/// The text after the prompt in a request body: one image, of a fixed size,
/// delivered as a location.
pub open spec fn body_tail() -> Seq<char> {
    seq![
        ',', '"', 'n', '"', ':', '1', ',', '"', 's', 'i', 'z', 'e', '"', ':', '"', '1', '0', '2',
        '4', 'x', '1', '0', '2', '4', '"', ',', '"', 'r', 'e', 's', 'p', 'o', 'n', 's', 'e', '_',
        'f', 'o', 'r', 'm', 'a', 't', '"', ':', '"', 'u', 'r', 'l', '"', '}'
    ]
}

/// The JSON body that asks for one image of `prompt`:
/// `{"prompt":"...","n":1,"size":"1024x1024","response_format":"url"}`.
pub open spec fn request_body(prompt: Seq<char>) -> Seq<char> {
    seq!['{', '"', 'p', 'r', 'o', 'm', 'p', 't', '"', ':'] + quoted(prompt) + body_tail()
}

/// Writes the body that asks for one image of `prompt`.
pub fn image_request_body(prompt: &str) -> (r: String)
    ensures
        r@ == request_body(prompt@),
{
    let mut out: Vec<char> = vec!['{', '"', 'p', 'r', 'o', 'm', 'p', 't', '"', ':'];
    push_quoted(&mut out, &chars_of(prompt));
    let tail: Vec<char> = vec![
        ',', '"', 'n', '"', ':', '1', ',', '"', 's', 'i', 'z', 'e', '"', ':', '"', '1', '0', '2',
        '4', 'x', '1', '0', '2', '4', '"', ',', '"', 'r', 'e', 's', 'p', 'o', 'n', 's', 'e', '_',
        'f', 'o', 'r', 'm', 'a', 't', '"', ':', '"', 'u', 'r', 'l', '"', '}'
    ];
    let ghost start = out@;
    let mut k: usize = 0;
    while k < tail.len()
        invariant
            k <= tail@.len(),
            tail@ == body_tail(),
            out@ == start + tail@.subrange(0, k as int),
        decreases tail@.len() - k,
    {
        out.push(tail[k]);
        proof {
            assert(tail@.subrange(0, k + 1) =~= tail@.subrange(0, k as int).push(tail@[k as int]));
        }
        k = k + 1;
    }
    proof {
        assert(tail@.subrange(0, k as int) =~= body_tail());
        assert(out@ =~= request_body(prompt@));
    }
    string_of(&out)
}

/// The location of the first image listed in an answer; `NoImage` when the
/// answer lists none.
pub fn first_image_url(urls: Vec<String>) -> (r: Result<String, GenerationError>)
    ensures
        urls@.len() > 0 ==> (r matches Ok(u) && u == urls@[0]),
        urls@.len() == 0 ==> r == Err::<String, GenerationError>(GenerationError::NoImage),
{
    let mut urls = urls;
    if urls.len() == 0 {
        Err(GenerationError::NoImage)
    } else {
        Ok(urls.swap_remove(0))
    }
}

} // verus!
