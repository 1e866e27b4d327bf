//! The attachment loader: a single `field=path` input names one file to
//! upload as a named multipart form part.
//!
//! The input must hold exactly one equals sign with non-empty segments on
//! both sides; the path must then point at an existing, non-empty regular
//! file. The engine itself never touches the filesystem: the caller probes
//! the path and hands the findings in as plain values, and the loader decides.
use vstd::prelude::*;

use crate::body::MultipartPart;
use crate::errors::ErrModel;
use crate::errors::RequestError;
use crate::text::chars_of;
use crate::text::find_char;
use crate::text::find_char_from;
use crate::text::find_first;
use crate::text::find_from;
use crate::text::string_of;
use crate::text::strip_chars;
use crate::text::strip_spec;
use crate::text::sub_chars;

verus! {

/// A parsed multipart request body: the form field name and the path of the
/// file to attach.
#[derive(Debug)]
pub struct MultipartSpec {
    pub field: String,
    pub path: String,
}

/// The field and path denoted by a raw multipart input, or `None` unless the
/// cleaned input holds exactly one equals sign with non-empty segments on
/// both sides.
pub open spec fn multipart_model(input: Seq<char>) -> Option<(Seq<char>, Seq<char>)> {
    let s = strip_spec(input);
    let j = find_first(s, '=');
    if 0 < j && j + 1 < s.len() && find_from(s, '=', j + 1) == -1 {
        Some((s.subrange(0, j), s.subrange(j + 1, s.len() as int)))
    } else {
        None
    }
}

/// Parses a raw `field=path` input, cleaned of spaces and carriage returns,
/// into a multipart spec.
pub fn parse_multipart(input: &str) -> (r: Result<MultipartSpec, RequestError>)
    ensures
        match r {
            Ok(m) => multipart_model(input@) == Some((m.field@, m.path@)),
            Err(e) => multipart_model(input@) is None
                && e == RequestError::MalformedMultipartSpec,
        },
{
    let cs = chars_of(input);
    let s = strip_chars(&cs);
    let n = s.len();
    match find_char(&s, '=') {
        Some(j) => {
            if j == 0 || j + 1 >= n {
                return Err(RequestError::MalformedMultipartSpec);
            }
            match find_char_from(&s, '=', j + 1) {
                Some(_) => Err(RequestError::MalformedMultipartSpec),
                None => {
                    let field = string_of(&sub_chars(&s, 0, j));
                    let path = string_of(&sub_chars(&s, j + 1, n));
                    Ok(MultipartSpec { field, path })
                },
            }
        },
        None => Err(RequestError::MalformedMultipartSpec),
    }
}

/// The final segment of a path: everything after its last forward slash.
pub open spec fn last_segment(p: Seq<char>) -> Seq<char>
    decreases p.len(),
{
    if p.len() == 0 {
        Seq::empty()
    } else if p.last() == '/' {
        Seq::empty()
    } else {
        last_segment(p.drop_last()).push(p.last())
    }
}

/// The final segment of a path, used as the uploaded file's name.
pub fn file_name_of(path: &str) -> (r: String)
    ensures
        r@ == last_segment(path@),
{
    let cs = chars_of(path);
    let mut cur: Vec<char> = Vec::new();
    let mut i: usize = 0;
    while i < cs.len()
        invariant
            i <= cs@.len(),
            cs@ == path@,
            cur@ == last_segment(path@.subrange(0, i as int)),
        decreases cs@.len() - i,
    {
        let c = cs[i];
        if c == '/' {
            cur = Vec::new();
        } else {
            cur.push(c);
        }
        proof {
            let pre = path@.subrange(0, i + 1 as int);
            assert(pre.drop_last() =~= path@.subrange(0, i as int));
            assert(pre.last() == path@[i as int]);
        }
        i += 1;
    }
    proof {
        assert(path@.subrange(0, path@.len() as int) =~= path@);
    }
    string_of(&cur)
}

/// What the filesystem reported about an attachment path: whether it exists,
/// whether it is a regular file, and its bytes (`None` when reading failed).
#[derive(Debug)]
pub struct FileProbe {
    pub exists: bool,
    pub is_file: bool,
    pub content: Option<Vec<u8>>,
}

impl FileProbe {
    /// The reported bytes, as a sequence.
    pub open spec fn content_model(self) -> Option<Seq<u8>> {
        match self.content {
            Some(b) => Some(b@),
            None => None,
        }
    }
}

/// The outcome of loading an attachment, given what the filesystem reported:
/// the checks run in order — existence, regular file, readable, non-empty —
/// and success carries the field name, the file name and the bytes.
pub open spec fn load_model(
    field: Seq<char>,
    path: Seq<char>,
    exists: bool,
    is_file: bool,
    content: Option<Seq<u8>>,
) -> Result<(Seq<char>, Seq<char>, Seq<u8>), ErrModel> {
    if !exists {
        Err(ErrModel::FileNotFound(path))
    } else if !is_file {
        Err(ErrModel::NotAFile(path))
    } else {
        match content {
            None => Err(ErrModel::UnreadableFile(path)),
            Some(bytes) => {
                if bytes.len() == 0 {
                    Err(ErrModel::EmptyFile(path))
                } else {
                    Ok((field, last_segment(path), bytes))
                }
            },
        }
    }
}

/// Turns a parsed multipart spec and the filesystem's findings about its path
/// into the named form part, or the classified error.
pub fn load_attachment(spec: MultipartSpec, probe: FileProbe) -> (r: Result<
    MultipartPart,
    RequestError,
>)
    ensures
        match r {
            Ok(p) => load_model(
                spec.field@,
                spec.path@,
                probe.exists,
                probe.is_file,
                match probe.content {
                    Some(b) => Some(b@),
                    None => None,
                },
            ) == Ok::<(Seq<char>, Seq<char>, Seq<u8>), ErrModel>(
                (p.field@, p.file_name@, p.content@),
            ),
            Err(e) => load_model(
                spec.field@,
                spec.path@,
                probe.exists,
                probe.is_file,
                match probe.content {
                    Some(b) => Some(b@),
                    None => None,
                },
            ) == Err::<(Seq<char>, Seq<char>, Seq<u8>), ErrModel>(e.model()),
        },
{
    if !probe.exists {
        return Err(RequestError::FileNotFound(spec.path));
    }
    if !probe.is_file {
        return Err(RequestError::NotAFile(spec.path));
    }
    match probe.content {
        None => Err(RequestError::UnreadableFile(spec.path)),
        Some(bytes) => {
            if bytes.len() == 0 {
                Err(RequestError::EmptyFile(spec.path))
            } else {
                let file_name = file_name_of(spec.path.as_str());
                Ok(MultipartPart { field: spec.field, file_name, content: bytes })
            }
        },
    }
}

} // verus!
