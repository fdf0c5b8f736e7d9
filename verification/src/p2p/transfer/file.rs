//! What is offered in a transfer and the name it is offered under.

use vstd::prelude::*;
use vstd::utf8::{decode_utf8, encode_utf8, is_char_boundary};
use crate::p2p::peer::{transfer_type_text, TransferType};
use crate::paths::{body_end, body_start, file_name, file_name_chars, last_start, parent};
use crate::text::{chars_of, decimal, push_all, push_decimal, string_of};

verus! {

broadcast use vstd::utf8::group_utf8_lib;

/// The content of a transfer: a directory or a file given by its path, or
/// a text.
#[derive(Debug, Clone)]
pub enum Payload {
    Dir(String),
    File(String),
    Text(String),
}

impl Payload {
    /// The payload of a transfer of kind `transfer_type` whose content is at
    /// `path`; for text, the content read from `path` by `read_text`.
    pub fn new<F, E>(transfer_type: TransferType, path: String, read_text: F) -> (r: Result<
        Payload,
        E,
    >) where F: FnOnce(String) -> Result<String, E>
        requires
            read_text.requires((path,)),
        ensures
            transfer_type == TransferType::File ==> (r matches Ok(Payload::File(p)) && p == path),
            transfer_type == TransferType::Dir ==> (r matches Ok(Payload::Dir(p)) && p == path),
            transfer_type == TransferType::Text ==> exists|t: Result<String, E>|
                #[trigger] read_text.ensures((path,), t) && match t {
                    Ok(text) => r matches Ok(Payload::Text(x)) && x == text,
                    Err(e) => r matches Err(x) && x == e,
                },
    {
        match transfer_type {
            TransferType::File => Ok(Payload::File(path)),
            TransferType::Dir => Ok(Payload::Dir(path)),
            TransferType::Text => {
                let t = read_text(path);
                match t {
                    Ok(text) => Ok(Payload::Text(text)),
                    Err(e) => Err(e),
                }
            },
        }
    }

    /// The payload for the content at `path`: a directory when `is_dir`
    /// says so, else a file.
    pub fn new_for_path<F, E>(path: String, is_dir: F) -> (r: Result<Payload, E>) where
        F: FnOnce(&String) -> Result<bool, E>,

        requires
            is_dir.requires((&path,)),
        ensures
            exists|d: Result<bool, E>|
                #[trigger] is_dir.ensures((&path,), d) && match d {
                    Ok(true) => r matches Ok(Payload::Dir(p)) && p == path,
                    Ok(false) => r matches Ok(Payload::File(p)) && p == path,
                    Err(e) => r matches Err(x) && x == e,
                },
    {
        let d = is_dir(&path);
        match d {
            Ok(true) => Ok(Payload::Dir(path)),
            Ok(false) => Ok(Payload::File(path)),
            Err(e) => Err(e),
        }
    }

    /// A short description: the path for a directory or a file, the byte
    /// length for a text.
    pub fn describe(&self) -> (s: String)
        ensures
            s@ == payload_text(*self),
    {
        let mut out: Vec<char> = Vec::new();
        match self {
            Payload::Dir(p) => {
                out = word_chars("DirPayload(");
                proof {
                    reveal_strlit("DirPayload(");
                    assert(out@ =~= dir_payload_word());
                }
                push_all(&mut out, &chars_of(p.as_str()));
            },
            Payload::File(p) => {
                out = word_chars("FilePayload(");
                proof {
                    reveal_strlit("FilePayload(");
                    assert(out@ =~= file_payload_word());
                }
                push_all(&mut out, &chars_of(p.as_str()));
            },
            Payload::Text(t) => {
                out = word_chars("TextPayload(");
                proof {
                    reveal_strlit("TextPayload(");
                    assert(out@ =~= text_payload_word());
                }
                push_decimal(t.as_str().as_bytes().len() as u64, &mut out);
            },
        }
        out.push(')');
        assert(out@ =~= (match self {
            Payload::Dir(p) => dir_payload_word() + p@.push(')'),
            Payload::File(p) => file_payload_word() + p@.push(')'),
            Payload::Text(t) => text_payload_word() + decimal(encode_utf8(t@).len() as nat).push(
                ')',
            ),
        }));
        string_of(&out)
    }
}

/// The description of a payload: the path for a directory or a file, the
/// byte length for a text, each in its kind's brackets.
pub open spec fn payload_text(p: Payload) -> Seq<char> {
    match p {
        Payload::Dir(d) => dir_payload_word() + d@.push(')'),
        Payload::File(f) => file_payload_word() + f@.push(')'),
        Payload::Text(t) => text_payload_word() + decimal(encode_utf8(t@).len() as nat).push(')'),
    }
}

/// The opening of a directory payload's description.
pub open spec fn dir_payload_word() -> Seq<char> {
    seq!['D', 'i', 'r', 'P', 'a', 'y', 'l', 'o', 'a', 'd', '(']
}

/// The opening of a file payload's description.
pub open spec fn file_payload_word() -> Seq<char> {
    seq!['F', 'i', 'l', 'e', 'P', 'a', 'y', 'l', 'o', 'a', 'd', '(']
}

/// The opening of a text payload's description.
pub open spec fn text_payload_word() -> Seq<char> {
    seq!['T', 'e', 'x', 't', 'P', 'a', 'y', 'l', 'o', 'a', 'd', '(']
}

fn word_chars(s: &str) -> (v: Vec<char>)
    ensures
        v@ == s@,
{
    chars_of(s)
}

/// Something to send to a peer.
#[derive(Debug, Clone)]
pub struct FileToSend {
    pub peer: String,
    pub name: String,
    pub payload: Payload,
    pub transfer_type: TransferType,
}

/// The name a directory is offered under: its path with its parent cut
/// off (the last component, `.` for the current directory), or the whole
/// path when it has no parent.
pub open spec fn dir_name(path: Seq<char>) -> Seq<char> {
    match parent(path) {
        None => path,
        Some(_) => if body_end(path) <= body_start(path) {
            seq!['.']
        } else {
            path.subrange(last_start(path), body_end(path))
        },
    }
}

/// The name a file is offered under, given its canonical path: the file
/// name, or `file`.
pub open spec fn file_offer_name(canonical: Seq<char>) -> Seq<char> {
    match file_name(canonical) {
        Some(n) => n,
        None => seq!['f', 'i', 'l', 'e'],
    }
}

/// `s` without its line feeds.
pub open spec fn without_newlines(s: Seq<char>) -> Seq<char>
    decreases s.len(),
{
    if s.len() == 0 {
        s
    } else if s.last() == '\n' {
        without_newlines(s.drop_last())
    } else {
        without_newlines(s.drop_last()).push(s.last())
    }
}

/// What follows the first characters of a text offer's name.
pub open spec fn ellipsis_word() -> Seq<char> {
    seq![' ', '(', '.', '.', '.', ')']
}

/// The name of a text offer too short to show its beginning.
pub open spec fn text_word() -> Seq<char> {
    seq!['t', 'e', 'x', 't']
}

/// The name a text is offered under: its first five bytes, when they end
/// on a character boundary, without line feeds and followed by ` (...)`;
/// else `text`.
pub open spec fn text_offer_name(text: Seq<char>) -> Seq<char> {
    let b = encode_utf8(text);
    if b.len() >= 5 && is_char_boundary(b, 5) {
        without_newlines(decode_utf8(b.take(5))) + ellipsis_word()
    } else {
        text_word()
    }
}

impl FileToSend {
    /// The offer of `payload` to `peer`. A directory is offered under its
    /// own name, a file under the name of its canonical path (which
    /// `canonicalize` resolves), a text under its first characters.
    pub fn new<C, E>(peer: &String, payload: Payload, canonicalize: C) -> (r: Result<
        FileToSend,
        E,
    >) where C: FnOnce(&String) -> Result<String, E>
        requires
            forall|p: &String| canonicalize.requires((p,)),
        ensures
            match payload {
                Payload::Dir(p) => r matches Ok(f) && f.name@ == dir_name(p@) && f.transfer_type
                    == TransferType::Dir && f.payload == payload && f.peer@ == peer@,
                Payload::Text(t) => r matches Ok(f) && f.name@ == text_offer_name(t@)
                    && f.transfer_type == TransferType::Text && f.payload == payload && f.peer@
                    == peer@,
                Payload::File(p) => exists|c: Result<String, E>|
                    #[trigger] canonicalize.ensures((&p,), c) && match c {
                        Ok(cp) => r matches Ok(f) && f.name@ == file_offer_name(cp@)
                            && f.transfer_type == TransferType::File && f.payload == payload
                            && f.peer@ == peer@,
                        Err(e) => r matches Err(x) && x == e,
                    },
            },
    {
        match payload {
            Payload::Dir(path) => {
                let name = Self::extract_name_dir(&path);
                Ok(FileToSend {
                    peer: peer.clone(),
                    name,
                    payload: Payload::Dir(path),
                    transfer_type: TransferType::Dir,
                })
            },
            Payload::File(path) => {
                let c = canonicalize(&path);
                match c {
                    Ok(cp) => {
                        let name = Self::extract_name_path(&cp);
                        Ok(FileToSend {
                            peer: peer.clone(),
                            name,
                            payload: Payload::File(path),
                            transfer_type: TransferType::File,
                        })
                    },
                    Err(e) => Err(e),
                }
            },
            Payload::Text(text) => {
                let name = Self::extract_name_text(&text);
                Ok(FileToSend {
                    peer: peer.clone(),
                    name,
                    payload: Payload::Text(text),
                    transfer_type: TransferType::Text,
                })
            },
        }
    }

    /// The name a directory at `path` is offered under.
    pub fn extract_name_dir(path: &String) -> (n: String)
        ensures
            n@ == dir_name(path@),
    {
        let p = chars_of(path.as_str());
        proof {
            crate::paths::lemma_positions(p@);
        }
        match crate::paths::parent_chars(&p) {
            None => string_of(&p),
            Some(_) => match crate::paths::last_component_chars(&p) {
                Some(n) => string_of(&n),
                None => {
                    let mut v: Vec<char> = Vec::new();
                    v.push('.');
                    proof {
                        assert(v@ =~= seq!['.']);
                    }
                    string_of(&v)
                },
            },
        }
    }

    /// The name a file whose canonical path is `path` is offered under.
    pub fn extract_name_path(path: &String) -> (n: String)
        ensures
            n@ == file_offer_name(path@),
    {
        let p = chars_of(path.as_str());
        match file_name_chars(&p) {
            Some(n) => string_of(&n),
            None => {
                let v = chars_of("file");
                proof {
                    reveal_strlit("file");
                    assert(v@ =~= seq!['f', 'i', 'l', 'e']);
                }
                string_of(&v)
            },
        }
    }

    /// The name a text is offered under.
    pub fn extract_name_text(text: &String) -> (n: String)
        ensures
            n@ == text_offer_name(text@),
    {
        let s = text.as_str();
        let bytes = s.as_bytes();
        assert(bytes@ == encode_utf8(text@));
        if bytes.len() >= 5 && s.is_char_boundary(5) {
            let (head, _) = s.split_at(5);
            proof {
                vstd::utf8::encode_utf8_decode_utf8(head@);
                assert(head@ == decode_utf8(encode_utf8(text@).take(5)));
            }
            let chars = chars_of(head);
            let mut out: Vec<char> = Vec::new();
            let mut i: usize = 0;
            while i < chars.len()
                invariant
                    i <= chars.len(),
                    out@ == without_newlines(chars@.take(i as int)),
                decreases chars.len() - i,
            {
                if chars[i] != '\n' {
                    out.push(chars[i]);
                }
                i = i + 1;
                assert(chars@.take(i as int).drop_last() == chars@.take((i - 1) as int));
            }
            assert(chars@.take(chars.len() as int) == chars@);
            let tail = chars_of(" (...)");
            proof {
                reveal_strlit(" (...)");
                assert(tail@ =~= ellipsis_word());
            }
            push_all(&mut out, &tail);
            string_of(&out)
        } else {
            let v = chars_of("text");
            proof {
                reveal_strlit("text");
                assert(v@ =~= text_word());
            }
            string_of(&v)
        }
    }

    /// A one-line description of the offer.
    pub fn describe(&self) -> (s: String)
        ensures
            s@ == "FileToSend name: "@ + self.name@ + ", type: "@ + transfer_type_text(
                self.transfer_type,
            ),
    {
        let mut out = chars_of("FileToSend name: ");
        push_all(&mut out, &chars_of(self.name.as_str()));
        push_all(&mut out, &chars_of(", type: "));
        push_all(&mut out, &chars_of(self.transfer_type.describe()));
        string_of(&out)
    }

    /// The size of the offer in bytes: the byte length of a text; for a
    /// file or a directory, what `measure` finds at its path (`true` for a
    /// directory).
    pub fn get_size<F, E>(&self, measure: F) -> (r: Result<u64, E>) where
        F: FnOnce(&String, bool) -> Result<u64, E>,

        requires
            forall|p: &String, d: bool| measure.requires((p, d)),
        ensures
            match self.payload {
                Payload::Text(t) => r matches Ok(n) && n == encode_utf8(t@).len(),
                Payload::File(p) => measure.ensures((&p, false), r),
                Payload::Dir(p) => measure.ensures((&p, true), r),
            },
    {
        match &self.payload {
            Payload::Text(t) => Ok(t.as_str().as_bytes().len() as u64),
            Payload::File(p) => measure(p, false),
            Payload::Dir(p) => measure(p, true),
        }
    }
}

} // verus!
