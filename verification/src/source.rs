//! Library source syntax accepted by the command line: `kind:value`.
use vstd::prelude::*;
use vstd::string::*;
use vstd::utf8::encode_utf8;

use crate::crates_io::{find_char, index_of, parse_spec_text, CratesIoSpec, ReqKindSpec};
use crate::error::CliError;
use crate::text::{chars_of, chars_eq, concat2, decimal_string, decimal_text, string_of, sub_chars};

verus! {

broadcast use vstd::string::group_string_axioms;

/// Library source syntax accepted by the command line.
#[derive(Clone, Debug, PartialEq, Eq)]
pub enum LibSourceSpec {
    /// A `symbol:NAME` source resolved through the kernel loader.
    Symbol(String),
    /// A `path:PATH` source read from the local filesystem.
    Path(String),
    /// A `url:URL` source fetched from a remote location.
    Url(String),
    /// A `bytes:TEXT` source holding inline library bytes.
    Bytes(Vec<u8>),
    /// A `host:NAME` source provided by the host environment.
    Host(String),
    /// A `crates.io:NAME@REQ` source resolved outside the kernel.
    CratesIo(CratesIoSpec),
}

/// Mathematical form of a source.
pub enum SourceView {
    Symbol(Seq<char>),
    Path(Seq<char>),
    Url(Seq<char>),
    Bytes(Seq<u8>),
    Host(Seq<char>),
    /// Package, requirement text and requirement kind.
    CratesIo(Seq<char>, Seq<char>, ReqKindSpec),
}

/// What parsing `kind:value` yields: the source, or the error message.
pub open spec fn parse_source_spec(source: Seq<char>) -> Result<SourceView, Seq<char>> {
    match index_of(source, ':') {
        None => Err("library source must use kind:value syntax"@),
        Some(i) => {
            let kind = source.take(i as int);
            let rest = source.skip(i as int + 1);
            if rest.len() == 0 {
                Err(kind + ": source value is empty"@)
            } else if kind == "symbol"@ {
                Ok(SourceView::Symbol(rest))
            } else if kind == "path"@ {
                Ok(SourceView::Path(rest))
            } else if kind == "url"@ {
                Ok(SourceView::Url(rest))
            } else if kind == "bytes"@ {
                Ok(SourceView::Bytes(encode_utf8(rest)))
            } else if kind == "host"@ {
                Ok(SourceView::Host(rest))
            } else if kind == "crates.io"@ {
                match parse_spec_text(rest) {
                    Err(m) => Err(m),
                    Ok(pk) => Ok(
                        SourceView::CratesIo(
                            pk.0,
                            rest.skip(index_of(rest, '@')->0 as int + 1),
                            pk.1,
                        ),
                    ),
                }
            } else {
                Err("unsupported library source kind: "@ + kind)
            }
        },
    }
}

/// Display form of a source.
pub open spec fn source_text(s: SourceView) -> Seq<char> {
    match s {
        SourceView::Symbol(v) => "symbol:"@ + v,
        SourceView::Path(v) => "path:"@ + v,
        SourceView::Url(v) => "url:"@ + v,
        SourceView::Bytes(b) => "bytes:"@ + decimal_text(b.len()) + " bytes"@,
        SourceView::Host(v) => "host:"@ + v,
        SourceView::CratesIo(p, raw, _) => "crates.io:"@ + p + "@"@ + raw,
    }
}

impl LibSourceSpec {
    pub open spec fn view(&self) -> SourceView {
        match self {
            LibSourceSpec::Symbol(v) => SourceView::Symbol(v@),
            LibSourceSpec::Path(v) => SourceView::Path(v@),
            LibSourceSpec::Url(v) => SourceView::Url(v@),
            LibSourceSpec::Bytes(b) => SourceView::Bytes(b@),
            LibSourceSpec::Host(v) => SourceView::Host(v@),
            LibSourceSpec::CratesIo(s) => SourceView::CratesIo(
                s.package@,
                s.requirement.view().raw,
                s.requirement.view().kind,
            ),
        }
    }

    /// Parses `kind:value`, splitting at the first `:`.
    pub fn parse_source(source: &str) -> (r: Result<LibSourceSpec, CliError>)
        ensures
            r matches Ok(s) ==> parse_source_spec(source@) == Ok::<SourceView, Seq<char>>(s.view()),
            r matches Err(e) ==> parse_source_spec(source@) == Err::<SourceView, Seq<char>>(
                e.message@,
            ),
    {
        let chars = chars_of(source);
        let i = match find_char(&chars, ':') {
            None => return Err(CliError::msg("library source must use kind:value syntax")),
            Some(i) => i,
        };
        let n = chars.len();
        assert(i < n);
        let kind = sub_chars(&chars, 0, i);
        let rest = sub_chars(&chars, i + 1, chars.len());
        assert(kind@ =~= source@.take(i as int));
        assert(rest@ =~= source@.skip(i as int + 1));
        let kind_text = string_of(&kind);
        let rest_text = string_of(&rest);
        if rest.len() == 0 {
            return Err(CliError::new(concat2(kind_text.as_str(), ": source value is empty")));
        }
        if chars_eq(&kind, &chars_of("symbol")) {
            Ok(LibSourceSpec::Symbol(rest_text))
        } else if chars_eq(&kind, &chars_of("path")) {
            Ok(LibSourceSpec::Path(rest_text))
        } else if chars_eq(&kind, &chars_of("url")) {
            Ok(LibSourceSpec::Url(rest_text))
        } else if chars_eq(&kind, &chars_of("bytes")) {
            let b = rest_text.as_str().as_bytes();
            let mut v: Vec<u8> = Vec::new();
            let mut k: usize = 0;
            while k < b.len()
                invariant
                    k <= b@.len(),
                    v@ == b@.take(k as int),
                decreases b@.len() - k,
            {
                v.push(b[k]);
                k = k + 1;
                assert(v@ =~= b@.take(k as int));
            }
            assert(v@ =~= b@);
            Ok(LibSourceSpec::Bytes(v))
        } else if chars_eq(&kind, &chars_of("host")) {
            Ok(LibSourceSpec::Host(rest_text))
        } else if chars_eq(&kind, &chars_of("crates.io")) {
            let spec = CratesIoSpec::parse_spec(rest_text.as_str())?;
            Ok(LibSourceSpec::CratesIo(spec))
        } else {
            Err(CliError::new(concat2("unsupported library source kind: ", kind_text.as_str())))
        }
    }

    /// Renders the source as `kind:value`; inline bytes show their count.
    pub fn to_string(&self) -> (r: String)
        ensures
            r@ == source_text(self.view()),
    {
        match self {
            LibSourceSpec::Symbol(v) => concat2("symbol:", v.as_str()),
            LibSourceSpec::Path(v) => concat2("path:", v.as_str()),
            LibSourceSpec::Url(v) => concat2("url:", v.as_str()),
            LibSourceSpec::Bytes(b) => {
                let mut r = concat2("bytes:", decimal_string(b.len()).as_str());
                r.append(" bytes");
                r
            },
            LibSourceSpec::Host(v) => concat2("host:", v.as_str()),
            LibSourceSpec::CratesIo(s) => concat2("crates.io:", s.to_string().as_str()),
        }
    }

    /// A copy of this source.
    pub fn copy(&self) -> (r: Self)
        ensures
            r.view() == self.view(),
    {
        match self {
            LibSourceSpec::Symbol(v) => LibSourceSpec::Symbol(v.clone()),
            LibSourceSpec::Path(v) => LibSourceSpec::Path(v.clone()),
            LibSourceSpec::Url(v) => LibSourceSpec::Url(v.clone()),
            LibSourceSpec::Bytes(b) => LibSourceSpec::Bytes(crate::git_registry::copy_bytes(b)),
            LibSourceSpec::Host(v) => LibSourceSpec::Host(v.clone()),
            LibSourceSpec::CratesIo(s) => LibSourceSpec::CratesIo(s.copy()),
        }
    }
}

impl core::str::FromStr for LibSourceSpec {
    type Err = CliError;

    fn from_str(source: &str) -> (r: Result<Self, Self::Err>)
        ensures
            r matches Ok(s) ==> parse_source_spec(source@) == Ok::<SourceView, Seq<char>>(s.view()),
            r matches Err(e) ==> parse_source_spec(source@) == Err::<SourceView, Seq<char>>(
                e.message@,
            ),
    {
        LibSourceSpec::parse_source(source)
    }
}

/// Rendering a parsed text source gives the text back.
pub proof fn law_source_text_roundtrip(source: Seq<char>)
    requires
        parse_source_spec(source) matches Ok(v) && !(v is Bytes),
    ensures
        source_text(parse_source_spec(source)->Ok_0) == source,
{
    reveal_strlit("symbol");
    reveal_strlit("path");
    reveal_strlit("url");
    reveal_strlit("bytes");
    reveal_strlit("host");
    reveal_strlit("crates.io");
    reveal_strlit("symbol:");
    reveal_strlit("path:");
    reveal_strlit("url:");
    reveal_strlit("host:");
    reveal_strlit("crates.io:");
    reveal_strlit("@");
    let i = index_of(source, ':')->0 as int;
    crate::crates_io::lemma_index_of_bounds(source, ':');
    let kind = source.take(i);
    let rest = source.skip(i + 1);
    assert(source =~= kind + ":"@ + rest) by {
        reveal_strlit(":");
    }
    if kind == "crates.io"@ {
        let j = index_of(rest, '@')->0 as int;
        crate::crates_io::lemma_index_of_bounds(rest, '@');
        assert(rest =~= rest.take(j) + "@"@ + rest.skip(j + 1));
    }
}

} // verus!
