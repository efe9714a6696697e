//! The programming languages that the code tooling understands, their names and file extensions.
use vstd::prelude::*;
use crate::text::{chars_of, chars_eq_ignore_ascii_case, eq_ignore_ascii_case, ascii_lower};

verus! {

/// The supported programming languages.
#[derive(Debug, PartialEq, Eq, Structural, Clone, Copy)]
#[non_exhaustive]
pub enum SupportedLanguages {
    Rust,
    Typescript,
    Python,
    Ruby,
    Javascript,
    Java,
    Go,
    Solidity,
    C,
    Cpp,
}

/// Error returned when a name does not denote a supported language.
#[derive(Debug, PartialEq, Eq, Structural, Clone, Copy)]
pub struct UnsupportedLanguage;

/// The display name of a language.
pub open spec fn spec_language_name(lang: SupportedLanguages) -> Seq<char> {
    match lang {
        SupportedLanguages::Rust => seq!['R', 'u', 's', 't'],
        SupportedLanguages::Typescript => seq!['T', 'y', 'p', 'e', 's', 'c', 'r', 'i', 'p', 't'],
        SupportedLanguages::Python => seq!['P', 'y', 't', 'h', 'o', 'n'],
        SupportedLanguages::Ruby => seq!['R', 'u', 'b', 'y'],
        SupportedLanguages::Javascript => seq!['J', 'a', 'v', 'a', 's', 'c', 'r', 'i', 'p', 't'],
        SupportedLanguages::Java => seq!['J', 'a', 'v', 'a'],
        SupportedLanguages::Go => seq!['G', 'o'],
        SupportedLanguages::Solidity => seq!['S', 'o', 'l', 'i', 'd', 'i', 't', 'y'],
        SupportedLanguages::C => seq!['C'],
        SupportedLanguages::Cpp => seq!['C', '+', '+'],
    }
}

/// Whether `name` selects `lang`: the display name compared without regard to ASCII case, and for
/// C++ the spellings `c++` and `cpp` in any ASCII case.
pub open spec fn spec_name_selects(name: Seq<char>, lang: SupportedLanguages) -> bool {
    match lang {
        SupportedLanguages::Cpp => eq_ignore_ascii_case(name, seq!['c', '+', '+'])
            || eq_ignore_ascii_case(name, seq!['c', 'p', 'p']),
        _ => eq_ignore_ascii_case(name, spec_language_name(lang)),
    }
}

/// The language selected by `name`, if any.
pub open spec fn spec_language_from_name(name: Seq<char>) -> Option<SupportedLanguages> {
    if spec_name_selects(name, SupportedLanguages::Rust) {
        Some(SupportedLanguages::Rust)
    } else if spec_name_selects(name, SupportedLanguages::Typescript) {
        Some(SupportedLanguages::Typescript)
    } else if spec_name_selects(name, SupportedLanguages::Python) {
        Some(SupportedLanguages::Python)
    } else if spec_name_selects(name, SupportedLanguages::Ruby) {
        Some(SupportedLanguages::Ruby)
    } else if spec_name_selects(name, SupportedLanguages::Javascript) {
        Some(SupportedLanguages::Javascript)
    } else if spec_name_selects(name, SupportedLanguages::Java) {
        Some(SupportedLanguages::Java)
    } else if spec_name_selects(name, SupportedLanguages::Go) {
        Some(SupportedLanguages::Go)
    } else if spec_name_selects(name, SupportedLanguages::Solidity) {
        Some(SupportedLanguages::Solidity)
    } else if spec_name_selects(name, SupportedLanguages::C) {
        Some(SupportedLanguages::C)
    } else if spec_name_selects(name, SupportedLanguages::Cpp) {
        Some(SupportedLanguages::Cpp)
    } else {
        None
    }
}

/// All supported languages, in declaration order.
pub open spec fn spec_all_languages() -> Seq<SupportedLanguages> {
    seq![
        SupportedLanguages::Rust,
        SupportedLanguages::Typescript,
        SupportedLanguages::Python,
        SupportedLanguages::Ruby,
        SupportedLanguages::Javascript,
        SupportedLanguages::Java,
        SupportedLanguages::Go,
        SupportedLanguages::Solidity,
        SupportedLanguages::C,
        SupportedLanguages::Cpp,
    ]
}

/// The file extensions associated with a language.
pub open spec fn spec_file_extensions(lang: SupportedLanguages) -> Seq<Seq<char>> {
    match lang {
        SupportedLanguages::Rust => seq![seq!['r', 's']],
        SupportedLanguages::Typescript => seq![
            seq!['t', 's'],
            seq!['t', 's', 'x'],
            seq!['j', 's'],
            seq!['j', 's', 'x'],
        ],
        SupportedLanguages::Python => seq![seq!['p', 'y']],
        SupportedLanguages::Ruby => seq![seq!['r', 'b']],
        SupportedLanguages::Javascript => seq![seq!['j', 's'], seq!['j', 's', 'x']],
        SupportedLanguages::Java => seq![seq!['j', 'a', 'v', 'a']],
        SupportedLanguages::Go => seq![seq!['g', 'o']],
        SupportedLanguages::Solidity => seq![seq!['s', 'o', 'l']],
        SupportedLanguages::C => seq![seq!['c'], seq!['h'], seq!['o']],
        SupportedLanguages::Cpp => seq![
            seq!['c'],
            seq!['h'],
            seq!['o'],
            seq!['c', 'c'],
            seq!['c', 'p', 'p'],
        ],
    }
}

/// The views of a vector of strings.
pub open spec fn strings_view(v: Seq<String>) -> Seq<Seq<char>> {
    v.map_values(|s: String| s@)
}

fn name_chars(lang: SupportedLanguages) -> (v: Vec<char>)
    ensures
        v@ == spec_language_name(lang),
{
    let v = match lang {
        SupportedLanguages::Rust => vec!['R', 'u', 's', 't'],
        SupportedLanguages::Typescript => vec!['T', 'y', 'p', 'e', 's', 'c', 'r', 'i', 'p', 't'],
        SupportedLanguages::Python => vec!['P', 'y', 't', 'h', 'o', 'n'],
        SupportedLanguages::Ruby => vec!['R', 'u', 'b', 'y'],
        SupportedLanguages::Javascript => vec!['J', 'a', 'v', 'a', 's', 'c', 'r', 'i', 'p', 't'],
        SupportedLanguages::Java => vec!['J', 'a', 'v', 'a'],
        SupportedLanguages::Go => vec!['G', 'o'],
        SupportedLanguages::Solidity => vec!['S', 'o', 'l', 'i', 'd', 'i', 't', 'y'],
        SupportedLanguages::C => vec!['C'],
        SupportedLanguages::Cpp => vec!['C', '+', '+'],
    };
    proof {
        assert(v@ =~= spec_language_name(lang));
    }
    v
}

fn name_selects(name: &[char], lang: SupportedLanguages) -> (r: bool)
    ensures
        r == spec_name_selects(name@, lang),
{
    match lang {
        SupportedLanguages::Cpp => {
            let a = vec!['c', '+', '+'];
            let b = vec!['c', 'p', 'p'];
            proof {
                assert(a@ =~= seq!['c', '+', '+']);
                assert(b@ =~= seq!['c', 'p', 'p']);
            }
            chars_eq_ignore_ascii_case(name, a.as_slice()) || chars_eq_ignore_ascii_case(
                name,
                b.as_slice(),
            )
        },
        _ => {
            let n = name_chars(lang);
            chars_eq_ignore_ascii_case(name, n.as_slice())
        },
    }
}

impl SupportedLanguages {
    /// All supported languages, in declaration order.
    pub fn all() -> (v: Vec<SupportedLanguages>)
        ensures
            v@ == spec_all_languages(),
            forall|l: SupportedLanguages| v@.contains(l),
    {
        let v = vec![
            SupportedLanguages::Rust,
            SupportedLanguages::Typescript,
            SupportedLanguages::Python,
            SupportedLanguages::Ruby,
            SupportedLanguages::Javascript,
            SupportedLanguages::Java,
            SupportedLanguages::Go,
            SupportedLanguages::Solidity,
            SupportedLanguages::C,
            SupportedLanguages::Cpp,
        ];
        proof {
            assert(v@ =~= spec_all_languages());
            assert forall|l: SupportedLanguages| v@.contains(l) by {
                match l {
                    SupportedLanguages::Rust => assert(v@[0] == l),
                    SupportedLanguages::Typescript => assert(v@[1] == l),
                    SupportedLanguages::Python => assert(v@[2] == l),
                    SupportedLanguages::Ruby => assert(v@[3] == l),
                    SupportedLanguages::Javascript => assert(v@[4] == l),
                    SupportedLanguages::Java => assert(v@[5] == l),
                    SupportedLanguages::Go => assert(v@[6] == l),
                    SupportedLanguages::Solidity => assert(v@[7] == l),
                    SupportedLanguages::C => assert(v@[8] == l),
                    SupportedLanguages::Cpp => assert(v@[9] == l),
                }
            }
        }
        v
    }

    /// Parses a language name, ignoring ASCII case (`"rust"`, `"TypeScript"`, `"c++"`, `"cpp"`).
    pub fn from_name(name: &str) -> (r: Option<SupportedLanguages>)
        ensures
            r == spec_language_from_name(name@),
    {
        let chars = chars_of(name);
        let all = Self::all();
        let mut i: usize = 0;
        while i < all.len()
            invariant
                chars@ == name@,
                all@ == spec_all_languages(),
                i <= all@.len(),
                forall|j: int| 0 <= j < i ==> !spec_name_selects(name@, #[trigger] all@[j]),
            decreases all@.len() - i,
        {
            if name_selects(chars.as_slice(), all[i]) {
                return Some(all[i]);
            }
            i = i + 1;
        }
        None
    }

    /// The display name of the language (`"Rust"`, ..., `"C++"`).
    pub fn name(&self) -> (s: String)
        ensures
            s@ == spec_language_name(*self),
    {
        let v = name_chars(*self);
        crate::text::string_from_chars(v.as_slice())
    }

    /// The file extensions associated with the language.
    pub fn file_extensions(&self) -> (r: Vec<String>)
        ensures
            strings_view(r@) == spec_file_extensions(*self),
    {
        let parts: Vec<Vec<char>> = match *self {
            SupportedLanguages::Rust => vec![vec!['r', 's']],
            SupportedLanguages::Typescript => vec![
                vec!['t', 's'],
                vec!['t', 's', 'x'],
                vec!['j', 's'],
                vec!['j', 's', 'x'],
            ],
            SupportedLanguages::Python => vec![vec!['p', 'y']],
            SupportedLanguages::Ruby => vec![vec!['r', 'b']],
            SupportedLanguages::Javascript => vec![vec!['j', 's'], vec!['j', 's', 'x']],
            SupportedLanguages::Java => vec![vec!['j', 'a', 'v', 'a']],
            SupportedLanguages::Go => vec![vec!['g', 'o']],
            SupportedLanguages::Solidity => vec![vec!['s', 'o', 'l']],
            SupportedLanguages::C => vec![vec!['c'], vec!['h'], vec!['o']],
            SupportedLanguages::Cpp => vec![
                vec!['c'],
                vec!['h'],
                vec!['o'],
                vec!['c', 'c'],
                vec!['c', 'p', 'p'],
            ],
        };
        let ghost expected = spec_file_extensions(*self);
        proof {
            assert(parts@.len() == expected.len());
            assert forall|j: int| 0 <= j < parts@.len() implies parts@[j]@ =~= expected[j] by {}
        }
        let mut out: Vec<String> = Vec::new();
        let mut i: usize = 0;
        while i < parts.len()
            invariant
                i <= parts@.len(),
                parts@.len() == expected.len(),
                forall|j: int| 0 <= j < parts@.len() ==> #[trigger] parts@[j]@ == expected[j],
                out@.len() == i,
                forall|j: int| 0 <= j < i ==> #[trigger] out@[j]@ == expected[j],
            decreases parts@.len() - i,
        {
            out.push(crate::text::string_from_chars(parts[i].as_slice()));
            i = i + 1;
        }
        proof {
            assert(strings_view(out@) =~= expected);
        }
        out
    }
}

/// Names that differ only in the case of ASCII letters select the same language.
pub proof fn lemma_name_case_insensitive(a: Seq<char>, b: Seq<char>)
    requires
        eq_ignore_ascii_case(a, b),
    ensures
        spec_language_from_name(a) == spec_language_from_name(b),
{
    assert forall|x: Seq<char>| eq_ignore_ascii_case(a, x) == eq_ignore_ascii_case(b, x) by {
        if eq_ignore_ascii_case(a, x) {
            assert forall|i: int| 0 <= i < b.len() implies #[trigger] ascii_lower(b[i]) == ascii_lower(x[i]) by {
                assert(ascii_lower(a[i]) == ascii_lower(b[i]));
                assert(ascii_lower(a[i]) == ascii_lower(x[i]));
            }
        }
        if eq_ignore_ascii_case(b, x) {
            assert forall|i: int| 0 <= i < a.len() implies #[trigger] ascii_lower(a[i]) == ascii_lower(x[i]) by {
                assert(ascii_lower(a[i]) == ascii_lower(b[i]));
                assert(ascii_lower(b[i]) == ascii_lower(x[i]));
            }
        }
    }
}

/// A language's name selects that language.
pub proof fn lemma_name_round_trip(lang: SupportedLanguages)
    ensures
        spec_language_from_name(spec_language_name(lang)) == Some(lang),
{
    let n = spec_language_name(lang);
    assert(eq_ignore_ascii_case(n, n));
    let rust = spec_language_name(SupportedLanguages::Rust);
    let ts = spec_language_name(SupportedLanguages::Typescript);
    let ruby = spec_language_name(SupportedLanguages::Ruby);
    match lang {
        SupportedLanguages::Ruby => {
            assert(ascii_lower(ruby[2]) != ascii_lower(rust[2]));
        },
        SupportedLanguages::Javascript => {
            assert(ascii_lower(n[0]) != ascii_lower(ts[0]));
        },
        SupportedLanguages::Java => {
            assert(ascii_lower(n[0]) != ascii_lower(rust[0]));
            assert(ascii_lower(n[0]) != ascii_lower(ruby[0]));
        },
        SupportedLanguages::Cpp => {
            assert(!eq_ignore_ascii_case(n, spec_language_name(SupportedLanguages::C)));
            assert(eq_ignore_ascii_case(n, seq!['c', '+', '+']));
        },
        _ => {},
    }
}

/// Anything that may name a supported language.
pub trait LanguageSelector {
    /// The language this value selects, if any.
    spec fn spec_selected_language(&self) -> Option<SupportedLanguages>;

    /// Resolves the selected language.
    fn selected_language(&self) -> (r: Option<SupportedLanguages>)
        ensures
            r == self.spec_selected_language(),
    ;
}

impl LanguageSelector for SupportedLanguages {
    open spec fn spec_selected_language(&self) -> Option<SupportedLanguages> {
        Some(*self)
    }

    fn selected_language(&self) -> (r: Option<SupportedLanguages>) {
        Some(*self)
    }
}

impl<'a> LanguageSelector for &'a str {
    open spec fn spec_selected_language(&self) -> Option<SupportedLanguages> {
        spec_language_from_name((*self)@)
    }

    fn selected_language(&self) -> (r: Option<SupportedLanguages>) {
        SupportedLanguages::from_name(*self)
    }
}

impl LanguageSelector for String {
    open spec fn spec_selected_language(&self) -> Option<SupportedLanguages> {
        spec_language_from_name(self@)
    }

    fn selected_language(&self) -> (r: Option<SupportedLanguages>) {
        SupportedLanguages::from_name(self.as_str())
    }
}

impl std::str::FromStr for SupportedLanguages {
    type Err = UnsupportedLanguage;

    fn from_str(s: &str) -> (r: Result<SupportedLanguages, UnsupportedLanguage>)
        ensures
            match spec_language_from_name(s@) {
                Some(lang) => r == Ok::<SupportedLanguages, UnsupportedLanguage>(lang),
                None => r is Err,
            },
    {
        match SupportedLanguages::from_name(s) {
            Some(lang) => Ok(lang),
            None => Err(UnsupportedLanguage),
        }
    }
}

} // verus!
