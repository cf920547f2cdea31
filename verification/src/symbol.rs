//! Library symbols: a name with an optional namespace, written `ns/name`.
use vstd::prelude::*;
use vstd::string::*;

use crate::crates_io::{find_char, index_of};
use crate::text::{chars_of, concat2, string_of, sub_chars};

verus! {

broadcast use vstd::string::group_string_axioms;

/// A kernel symbol: a bare name with an optional namespace.
#[derive(Clone, Debug, PartialEq, Eq, PartialOrd, Ord, Hash)]
pub struct Symbol {
    /// The optional namespace component (the part before `/`).
    pub namespace: Option<String>,
    /// The bare name component.
    pub name: String,
}

/// Mathematical form of a symbol.
pub struct SymbolView {
    pub namespace: Option<Seq<char>>,
    pub name: Seq<char>,
}

/// Symbol with no namespace.
pub open spec fn plain_symbol(name: Seq<char>) -> SymbolView {
    SymbolView { namespace: None, name }
}

/// Symbol qualified by a namespace.
pub open spec fn qualified_symbol(namespace: Seq<char>, name: Seq<char>) -> SymbolView {
    SymbolView { namespace: Some(namespace), name }
}

/// `namespace/name`, or just `name` when unqualified.
pub open spec fn qualified_text(s: SymbolView) -> Seq<char> {
    match s.namespace {
        Some(ns) => ns + "/"@ + s.name,
        None => s.name,
    }
}

/// The symbol that text names: split at the first `/` when both sides are
/// nonempty, otherwise the whole text as a bare name.
pub open spec fn symbol_of_text(text: Seq<char>) -> SymbolView {
    match index_of(text, '/') {
        Some(i) => if i > 0 && i + 1 < text.len() {
            qualified_symbol(text.take(i as int), text.skip(i as int + 1))
        } else {
            plain_symbol(text)
        },
        None => plain_symbol(text),
    }
}

impl Symbol {
    pub open spec fn view(&self) -> SymbolView {
        SymbolView {
            namespace: match self.namespace {
                Some(ns) => Some(ns@),
                None => None,
            },
            name: self.name@,
        }
    }

    /// Creates an unqualified symbol.
    pub fn new(name: String) -> (r: Self)
        ensures
            r.view() == plain_symbol(name@),
    {
        Symbol { namespace: None, name }
    }

    /// Creates a symbol qualified by `namespace`.
    pub fn qualified(namespace: String, name: String) -> (r: Self)
        ensures
            r.view() == qualified_symbol(namespace@, name@),
    {
        Symbol { namespace: Some(namespace), name }
    }

    /// Renders the symbol as `namespace/name`, or just `name`.
    pub fn as_qualified_str(&self) -> (r: String)
        ensures
            r@ == qualified_text(self.view()),
    {
        match &self.namespace {
            Some(ns) => {
                let mut r = concat2(ns.as_str(), "/");
                r.append(self.name.as_str());
                r
            },
            None => self.name.clone(),
        }
    }

    /// A copy of this symbol.
    pub fn copy(&self) -> (r: Self)
        ensures
            r.view() == self.view(),
    {
        Symbol {
            namespace: match &self.namespace {
                Some(ns) => Some(ns.clone()),
                None => None,
            },
            name: self.name.clone(),
        }
    }

    /// Whether two symbols are the same.
    pub fn same(&self, other: &Symbol) -> (r: bool)
        ensures
            r == (self.view() == other.view()),
    {
        let ns_same = match (&self.namespace, &other.namespace) {
            (Some(a), Some(b)) => crate::text::str_eq(a.as_str(), b.as_str()),
            (None, None) => true,
            _ => false,
        };
        ns_same && crate::text::str_eq(self.name.as_str(), other.name.as_str())
    }
}

/// Parses `ns/name` or a bare name into a symbol.
pub fn symbol_from_text(text: &str) -> (r: Symbol)
    ensures
        r.view() == symbol_of_text(text@),
{
    let chars = chars_of(text);
    match find_char(&chars, '/') {
        Some(i) => {
            if i > 0 && i < chars.len() - 1 {
                let ns = sub_chars(&chars, 0, i);
                let name = sub_chars(&chars, i + 1, chars.len());
                assert(ns@ =~= text@.take(i as int));
                assert(name@ =~= text@.skip(i + 1));
                Symbol::qualified(string_of(&ns), string_of(&name))
            } else {
                Symbol::new(crate::text::owned(text))
            }
        },
        None => Symbol::new(crate::text::owned(text)),
    }
}

/// Rendering the symbol named by qualified text gives that text back.
pub proof fn law_symbol_text_roundtrip(namespace: Seq<char>, name: Seq<char>)
    requires
        namespace.len() > 0,
        name.len() > 0,
        !crate::text::has_char(namespace, '/'),
    ensures
        symbol_of_text(qualified_text(qualified_symbol(namespace, name))) == qualified_symbol(
            namespace,
            name,
        ),
{
    let t = namespace + "/"@ + name;
    assert(qualified_text(qualified_symbol(namespace, name)) == t);
    reveal_strlit("/");
    assert forall|j: int| 0 <= j < namespace.len() implies t[j] != '/' by {
        assert(t[j] == namespace[j]);
    }
    assert(t[namespace.len() as int] == '/');
    crate::crates_io::lemma_index_of(t, '/', namespace.len() as int);
    assert(t.take(namespace.len() as int) =~= namespace);
    assert(t.skip(namespace.len() as int + 1) =~= name);
}

} // verus!
