use vstd::prelude::*;
use crate::lexer::{lower_char, upper_char};

verus! {

/// How identifiers are normalised before they are written out.
#[derive(Clone, Copy, Debug, PartialEq, Eq, Structural)]
pub enum CaseFold {
    Keep,
    Upper,
    Lower,
}

/// The target dialect's parameters, fixed for the life of a translation.
#[derive(Debug)]
pub struct Config {
    /// Written around every identifier; doubled inside one.
    pub quote_char: char,
    pub case_fold: CaseFold,
    /// The longest source accepted, in characters.
    pub max_input_length: usize,
    /// The functions a query may call, matched without regard to ASCII case.
    pub allowed_functions: Vec<String>,
}

pub open spec fn upper_seq(n: Seq<char>) -> Seq<char> {
    n.map_values(|c: char| upper_char(c))
}

pub open spec fn fold_name(f: CaseFold, n: Seq<char>) -> Seq<char> {
    match f {
        CaseFold::Keep => n,
        CaseFold::Upper => upper_seq(n),
        CaseFold::Lower => n.map_values(|c: char| lower_char(c)),
    }
}

impl Config {
    pub open spec fn allowed_names(&self) -> Seq<Seq<char>> {
        self.allowed_functions@.map_values(|f: String| f@)
    }

    /// Double quotes, names kept as written, 65536 characters at most, and
    /// the common aggregate and string functions.
    pub fn bigquery_default() -> (r: Config)
        ensures
            r.quote_char == '"',
            r.case_fold == CaseFold::Keep,
            r.max_input_length == 65536,
            r.allowed_names() == seq![
                "COUNT"@,
                "SUM"@,
                "AVG"@,
                "MIN"@,
                "MAX"@,
                "LOWER"@,
                "UPPER"@,
                "LENGTH"@,
                "ABS"@,
                "COALESCE"@,
            ],
    {
        let mut f: Vec<String> = Vec::new();
        f.push("COUNT".to_owned());
        f.push("SUM".to_owned());
        f.push("AVG".to_owned());
        f.push("MIN".to_owned());
        f.push("MAX".to_owned());
        f.push("LOWER".to_owned());
        f.push("UPPER".to_owned());
        f.push("LENGTH".to_owned());
        f.push("ABS".to_owned());
        f.push("COALESCE".to_owned());
        let r = Config {
            quote_char: '"',
            case_fold: CaseFold::Keep,
            max_input_length: 65536,
            allowed_functions: f,
        };
        assert(r.allowed_names() =~= seq![
            "COUNT"@,
            "SUM"@,
            "AVG"@,
            "MIN"@,
            "MAX"@,
            "LOWER"@,
            "UPPER"@,
            "LENGTH"@,
            "ABS"@,
            "COALESCE"@,
        ]);
        r
    }
}

} // verus!
