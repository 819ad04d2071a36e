//! The two files of the stub directory that takes the archive's place: a
//! fixed manifest, and an entry point that loads the external module.
//!
//! File contents are bytes. A path is embedded in the entry point as a
//! double-quoted literal in which a backslash introduces an escape; the two
//! bytes that need one, the backslash and the double quote, are single bytes
//! in UTF-8 and never part of a longer character, so escaping byte by byte and
//! escaping character by character give the same text.

use vstd::prelude::*;
use vstd::string::*;

verus! {

/// The byte `\`.
pub const BACKSLASH: u8 = 0x5c;

/// The byte `"`.
pub const QUOTE: u8 = 0x22;

/// The manifest of the stub, as text.
pub const PACKAGE_JSON: &'static str = "{\"name\": \"tetrio-desktop\", \"main\": \"main.js\"}";

/// What stands before the escaped path in the entry point.
pub const REQUIRE_OPEN: &'static str = "require(\"";

/// What stands after the escaped path in the entry point.
pub const REQUIRE_CLOSE: &'static str = "\")";

/// The files that make up the stub directory.
#[derive(Clone, Copy, Debug, PartialEq, Eq, Structural)]
pub enum StubFile {
    /// `package.json`, which names the entry point.
    PackageJson,
    /// `main.js`, which loads the external module.
    MainJs,
}

impl StubFile {
    /// The name of the file inside the stub directory.
    pub open spec fn name(self) -> Seq<char> {
        match self {
            StubFile::PackageJson => "package.json"@,
            StubFile::MainJs => "main.js"@,
        }
    }

    /// The name of the file inside the stub directory.
    pub fn file_name(self) -> (name: &'static str)
        ensures
            name@ == self.name(),
    {
        match self {
            StubFile::PackageJson => "package.json",
            StubFile::MainJs => "main.js",
        }
    }
}

/// One byte as it stands inside the literal: a backslash or a double quote
/// is preceded by a backslash, any other byte stands for itself.
pub open spec fn escaped_byte(b: u8) -> Seq<u8> {
    if b == BACKSLASH || b == QUOTE {
        seq![BACKSLASH, b]
    } else {
        seq![b]
    }
}

/// The text `s` as it stands between the quotes of the literal: each byte
/// replaced by [`escaped_byte`] of it, in order.
pub open spec fn escaped(s: Seq<u8>) -> Seq<u8>
    decreases s.len(),
{
    if s.len() == 0 {
        Seq::empty()
    } else {
        escaped_byte(s[0]) + escaped(s.skip(1))
    }
}

/// What the text between the quotes of a literal stands for, read from the
/// left: `\\` is a backslash, `\"` a double quote, any other byte but these
/// two is itself. A bare double quote would end the literal early and a
/// backslash before anything else is no escape of this grammar: both give
/// `None`.
pub open spec fn unescaped(s: Seq<u8>) -> Option<Seq<u8>>
    decreases s.len(),
{
    if s.len() == 0 {
        Some(Seq::empty())
    } else if s[0] == BACKSLASH {
        if s.len() >= 2 && (s[1] == BACKSLASH || s[1] == QUOTE) {
            match unescaped(s.skip(2)) {
                Some(rest) => Some(seq![s[1]] + rest),
                None => None,
            }
        } else {
            None
        }
    } else if s[0] == QUOTE {
        None
    } else {
        match unescaped(s.skip(1)) {
            Some(rest) => Some(seq![s[0]] + rest),
            None => None,
        }
    }
}

/// The content of `package.json`.
pub open spec fn manifest_content() -> Seq<u8> {
    PACKAGE_JSON.spec_bytes()
}

/// The content of `main.js` for the loader at `loader`: the call
/// `require("..")` around the escaped path.
pub open spec fn entry_point_content(loader: Seq<u8>) -> Seq<u8> {
    REQUIRE_OPEN.spec_bytes() + escaped(loader) + REQUIRE_CLOSE.spec_bytes()
}

/// The content of the stub file `file` when the loader is at `loader`.
pub open spec fn stub_content_of(file: StubFile, loader: Seq<u8>) -> Seq<u8> {
    match file {
        StubFile::PackageJson => manifest_content(),
        StubFile::MainJs => entry_point_content(loader),
    }
}

/// The path that an entry point loads: the literal between `require("` and
/// `")`, unescaped. `None` where `content` is not of that form.
pub open spec fn loader_of(content: Seq<u8>) -> Option<Seq<u8>> {
    let open = REQUIRE_OPEN.spec_bytes();
    let close = REQUIRE_CLOSE.spec_bytes();
    if content.len() >= open.len() + close.len() && content.take(open.len() as int) == open
        && content.skip(content.len() - close.len()) == close {
        unescaped(content.subrange(open.len() as int, content.len() - close.len()))
    } else {
        None
    }
}

/// Escaping distributes over concatenation.
pub proof fn lemma_escaped_concat(a: Seq<u8>, b: Seq<u8>)
    ensures
        escaped(a + b) == escaped(a) + escaped(b),
    decreases a.len(),
{
    if a.len() == 0 {
        assert(a + b =~= b);
        assert(escaped(a) + escaped(b) =~= escaped(b));
    } else {
        lemma_escaped_concat(a.skip(1), b);
        assert((a + b).skip(1) =~= a.skip(1) + b);
        assert((a + b)[0] == a[0]);
        assert(escaped_byte(a[0]) + (escaped(a.skip(1)) + escaped(b)) =~= (escaped_byte(a[0])
            + escaped(a.skip(1))) + escaped(b));
    }
}

/// Escaping a path that holds neither a backslash nor a double quote leaves
/// it as it is.
pub proof fn lemma_escaped_plain(s: Seq<u8>)
    requires
        forall|i: int| 0 <= i < s.len() ==> s[i] != BACKSLASH && s[i] != QUOTE,
    ensures
        escaped(s) == s,
    decreases s.len(),
{
    if s.len() == 0 {
        assert(s =~= Seq::empty());
    } else {
        assert forall|i: int| 0 <= i < s.skip(1).len() implies s.skip(1)[i] != BACKSLASH
            && s.skip(1)[i] != QUOTE by {
            assert(s.skip(1)[i] == s[i + 1]);
        }
        lemma_escaped_plain(s.skip(1));
        assert(seq![s[0]] + s.skip(1) =~= s);
    }
}

/// Reading an escaped text back gives the text: whatever bytes a path
/// holds, double quotes and backslashes among them, the literal stands for
/// that path and no other.
pub proof fn lemma_unescaped_escaped(s: Seq<u8>)
    ensures
        unescaped(escaped(s)) == Some(s),
    decreases s.len(),
{
    if s.len() == 0 {
        assert(s =~= Seq::empty());
    } else {
        let rest = s.skip(1);
        lemma_unescaped_escaped(rest);
        let e = escaped(s);
        if s[0] == BACKSLASH || s[0] == QUOTE {
            assert(e[0] == BACKSLASH);
            assert(e[1] == s[0]);
            assert(e.skip(2) =~= escaped(rest));
        } else {
            assert(e[0] == s[0]);
            assert(e.skip(1) =~= escaped(rest));
        }
        assert(seq![s[0]] + rest =~= s);
    }
}

/// The entry point written for a loader path loads exactly that path: read
/// as a call of `require` on a string literal, its content gives the path
/// back unchanged.
pub proof fn lemma_entry_point_round_trip(loader: Seq<u8>)
    ensures
        loader_of(entry_point_content(loader)) == Some(loader),
{
    let open = REQUIRE_OPEN.spec_bytes();
    let close = REQUIRE_CLOSE.spec_bytes();
    let content = entry_point_content(loader);
    lemma_unescaped_escaped(loader);
    assert(content.take(open.len() as int) =~= open);
    assert(content.skip(content.len() - close.len()) =~= close);
    assert(content.subrange(open.len() as int, content.len() - close.len()) =~= escaped(loader));
}

/// Appends the bytes of `text` to `out`.
fn push_all(out: &mut Vec<u8>, text: &[u8])
    ensures
        final(out)@ == old(out)@ + text@,
{
    let mut i: usize = 0;
    while i < text.len()
        invariant
            i <= text@.len(),
            out@ == old(out)@ + text@.take(i as int),
        decreases text@.len() - i,
    {
        out.push(text[i]);
        assert(text@.take(i + 1) =~= text@.take(i as int).push(text@[i as int]));
        i += 1;
    }
    assert(text@.take(i as int) =~= text@);
}

/// Appends the escaped form of `text` to `out`.
fn push_escaped(out: &mut Vec<u8>, text: &[u8])
    ensures
        final(out)@ == old(out)@ + escaped(text@),
{
    let mut i: usize = 0;
    while i < text.len()
        invariant
            i <= text@.len(),
            out@ == old(out)@ + escaped(text@.take(i as int)),
        decreases text@.len() - i,
    {
        let b: u8 = text[i];
        proof {
            lemma_escaped_concat(text@.take(i as int), seq![b]);
            assert(text@.take(i + 1) =~= text@.take(i as int) + seq![b]);
            assert(seq![b][0] == b);
            assert(escaped(seq![b].skip(1)) =~= Seq::<u8>::empty());
            assert(escaped(seq![b]) =~= escaped_byte(b));
        }
        if b == BACKSLASH || b == QUOTE {
            out.push(BACKSLASH);
            out.push(b);
            assert(out@ =~= old(out)@ + escaped(text@.take(i as int)) + seq![BACKSLASH, b]);
        } else {
            out.push(b);
            assert(out@ =~= old(out)@ + escaped(text@.take(i as int)) + seq![b]);
        }
        i += 1;
    }
    assert(text@.take(i as int) =~= text@);
}

/// The loader path as it stands between the quotes of the literal in
/// `main.js`.
pub fn escape_path(loader: &str) -> (out: Vec<u8>)
    ensures
        out@ == escaped(loader.spec_bytes()),
{
    let mut out: Vec<u8> = Vec::new();
    push_escaped(&mut out, loader.as_bytes());
    out
}

/// The content of `package.json`: the fixed manifest, byte for byte.
pub fn package_json() -> (content: Vec<u8>)
    ensures
        content@ == manifest_content(),
{
    PACKAGE_JSON.as_bytes_vec()
}

/// The content of `main.js` for the loader at `loader`: one call of
/// `require` on the path, written as an escaped string literal.
pub fn main_js(loader: &str) -> (content: Vec<u8>)
    ensures
        content@ == entry_point_content(loader.spec_bytes()),
        loader_of(content@) == Some(loader.spec_bytes()),
{
    let mut content: Vec<u8> = Vec::new();
    push_all(&mut content, REQUIRE_OPEN.as_bytes());
    push_escaped(&mut content, loader.as_bytes());
    push_all(&mut content, REQUIRE_CLOSE.as_bytes());
    proof {
        lemma_entry_point_round_trip(loader.spec_bytes());
    }
    content
}

/// The content of the stub file `file` for the loader at `loader`.
pub fn stub_content(file: StubFile, loader: &str) -> (content: Vec<u8>)
    ensures
        content@ == stub_content_of(file, loader.spec_bytes()),
{
    match file {
        StubFile::PackageJson => package_json(),
        StubFile::MainJs => main_js(loader),
    }
}

} // verus!
