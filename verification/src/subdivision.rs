use crate::text::str_eq;
use vstd::prelude::*;

verus! {

/// Errors that might arise when converting raw data into a subdivision code
#[derive(Clone, Copy, Debug, PartialEq, Eq, Structural)]
pub enum SubdivisionCodeParseError {
    InvalidCode,
}

impl SubdivisionCodeParseError {
    /// A short human-readable description of the error.
    pub fn message(&self) -> (r: &'static str)
        ensures
            r@ == "invalid iso subdivison code string"@,
    {
        "invalid iso subdivison code string"
    }
}

/// The closed set of subdivision codes baked into the table.
///
/// One member exists per dataset entry, named by the entry's derived
/// identifier (the canonical code with `-` replaced by `_`). The members
/// are declared in dataset order, so the derived `Ord` follows dataset
/// order, not any alphabetical guarantee of its own.
#[allow(non_camel_case_types)]
#[derive(Clone, Copy, Debug, PartialEq, Eq, PartialOrd, Ord, Structural)]
pub enum Code {
    FR_75,
    FR_IDF,
    GB_ABC,
    US_AZ,
    US_CA,
    US_CO,
    US_CT,
    US_NY,
}

/// How many members the generated table has.
pub const CODE_COUNT: usize = 8;

/// The canonical dash-separated code string of a member, exactly as it
/// stood in the source dataset.
pub open spec fn code_chars(c: Code) -> Seq<char> {
    match c {
        Code::FR_75 => "FR-75"@,
        Code::FR_IDF => "FR-IDF"@,
        Code::GB_ABC => "GB-ABC"@,
        Code::US_AZ => "US-AZ"@,
        Code::US_CA => "US-CA"@,
        Code::US_CO => "US-CO"@,
        Code::US_CT => "US-CT"@,
        Code::US_NY => "US-NY"@,
    }
}

/// What parsing a string yields: the member whose canonical code the
/// string matches exactly, or `InvalidCode` when none does.
pub open spec fn spec_parse(s: Seq<char>) -> Result<Code, SubdivisionCodeParseError> {
    if s == "FR-75"@ {
        Ok(Code::FR_75)
    } else if s == "FR-IDF"@ {
        Ok(Code::FR_IDF)
    } else if s == "GB-ABC"@ {
        Ok(Code::GB_ABC)
    } else if s == "US-AZ"@ {
        Ok(Code::US_AZ)
    } else if s == "US-CA"@ {
        Ok(Code::US_CA)
    } else if s == "US-CO"@ {
        Ok(Code::US_CO)
    } else if s == "US-CT"@ {
        Ok(Code::US_CT)
    } else if s == "US-NY"@ {
        Ok(Code::US_NY)
    } else {
        Err(SubdivisionCodeParseError::InvalidCode)
    }
}

impl Code {
    /// Parses a subdivision code from its canonical string form.
    ///
    /// The match is exact and case-sensitive: the input succeeds if and
    /// only if it is, character for character, the canonical code of some
    /// member. No trimming, case folding or separator normalization is
    /// performed.
    pub fn from_str(s: &str) -> (r: Result<Code, SubdivisionCodeParseError>)
        ensures
            r == spec_parse(s@),
            match r {
                Ok(c) => s@ == code_chars(c),
                Err(e) => {
                    &&& e == SubdivisionCodeParseError::InvalidCode
                    &&& forall|c: Code| s@ != code_chars(c)
                },
            },
    {
        if str_eq(s, "FR-75") {
            Ok(Code::FR_75)
        } else if str_eq(s, "FR-IDF") {
            Ok(Code::FR_IDF)
        } else if str_eq(s, "GB-ABC") {
            Ok(Code::GB_ABC)
        } else if str_eq(s, "US-AZ") {
            Ok(Code::US_AZ)
        } else if str_eq(s, "US-CA") {
            Ok(Code::US_CA)
        } else if str_eq(s, "US-CO") {
            Ok(Code::US_CO)
        } else if str_eq(s, "US-CT") {
            Ok(Code::US_CT)
        } else if str_eq(s, "US-NY") {
            Ok(Code::US_NY)
        } else {
            Err(SubdivisionCodeParseError::InvalidCode)
        }
    }

    /// Renders the member back to its canonical dash-separated code string.
    pub fn to_string(&self) -> (r: String)
        ensures
            r@ == code_chars(*self),
    {
        match self {
            Code::FR_75 => String::from_str("FR-75"),
            Code::FR_IDF => String::from_str("FR-IDF"),
            Code::GB_ABC => String::from_str("GB-ABC"),
            Code::US_AZ => String::from_str("US-AZ"),
            Code::US_CA => String::from_str("US-CA"),
            Code::US_CO => String::from_str("US-CO"),
            Code::US_CT => String::from_str("US-CT"),
            Code::US_NY => String::from_str("US-NY"),
        }
    }
}

/// The display name a member carries in the static table.
pub open spec fn name_chars(c: Code) -> Seq<char> {
    match c {
        Code::FR_75 => "Paris"@,
        Code::FR_IDF => "Ile-de-France"@,
        Code::GB_ABC => "Armagh City, Banbridge and Craigavon"@,
        Code::US_AZ => "Arizona"@,
        Code::US_CA => "California"@,
        Code::US_CO => "Colorado"@,
        Code::US_CT => "Connecticut"@,
        Code::US_NY => "New York"@,
    }
}

/// The subdivision-type label a member carries in the static table.
pub open spec fn type_chars(c: Code) -> Seq<char> {
    match c {
        Code::FR_75 => "Metropolitan department"@,
        Code::FR_IDF => "Metropolitan region"@,
        Code::GB_ABC => "District"@,
        Code::US_AZ => "State"@,
        Code::US_CA => "State"@,
        Code::US_CO => "State"@,
        Code::US_CT => "State"@,
        Code::US_NY => "State"@,
    }
}

/// The canonical code of a member's parent subdivision, where the dataset
/// records one. The parent is referenced by code string, never owned.
pub open spec fn parent_chars(c: Code) -> Option<Seq<char>> {
    match c {
        Code::FR_75 => Some("FR-IDF"@),
        _ => None,
    }
}

/// A member's position in declaration (dataset) order.
pub open spec fn spec_ordinal(c: Code) -> int {
    match c {
        Code::FR_75 => 0,
        Code::FR_IDF => 1,
        Code::GB_ABC => 2,
        Code::US_AZ => 3,
        Code::US_CA => 4,
        Code::US_CO => 5,
        Code::US_CT => 6,
        Code::US_NY => 7,
    }
}

impl Code {
    /// The static display name recorded for this code.
    pub fn name(&self) -> (r: &'static str)
        ensures
            r@ == name_chars(*self),
    {
        match self {
            Code::FR_75 => "Paris",
            Code::FR_IDF => "Ile-de-France",
            Code::GB_ABC => "Armagh City, Banbridge and Craigavon",
            Code::US_AZ => "Arizona",
            Code::US_CA => "California",
            Code::US_CO => "Colorado",
            Code::US_CT => "Connecticut",
            Code::US_NY => "New York",
        }
    }

    /// The static subdivision-type label recorded for this code.
    pub fn ty(&self) -> (r: &'static str)
        ensures
            r@ == type_chars(*self),
    {
        match self {
            Code::FR_75 => "Metropolitan department",
            Code::FR_IDF => "Metropolitan region",
            Code::GB_ABC => "District",
            Code::US_AZ => "State",
            Code::US_CA => "State",
            Code::US_CO => "State",
            Code::US_CT => "State",
            Code::US_NY => "State",
        }
    }

    /// The canonical code of the parent subdivision, where the dataset
    /// records one.
    pub fn parent_code(&self) -> (r: Option<&'static str>)
        ensures
            r is Some <==> parent_chars(*self) is Some,
            r matches Some(p) ==> parent_chars(*self) == Some(p@),
    {
        match self {
            Code::FR_75 => Some("FR-IDF"),
            _ => None,
        }
    }

    /// This member's position in declaration order; the derived ordering
    /// of `Code` values agrees with it.
    pub fn ordinal(&self) -> (r: usize)
        ensures
            r == spec_ordinal(*self),
    {
        match self {
            Code::FR_75 => 0,
            Code::FR_IDF => 1,
            Code::GB_ABC => 2,
            Code::US_AZ => 3,
            Code::US_CA => 4,
            Code::US_CO => 5,
            Code::US_CT => 6,
            Code::US_NY => 7,
        }
    }

    /// Every member of the closed enumeration, in declaration order.
    pub fn all_codes() -> (r: Vec<Code>)
        ensures
            r@.len() == CODE_COUNT,
            forall|i: int| 0 <= i < r@.len() ==> spec_ordinal(#[trigger] r@[i]) == i,
            forall|c: Code| r@.contains(c),
    {
        let mut v: Vec<Code> = Vec::new();
        v.push(Code::FR_75);
        v.push(Code::FR_IDF);
        v.push(Code::GB_ABC);
        v.push(Code::US_AZ);
        v.push(Code::US_CA);
        v.push(Code::US_CO);
        v.push(Code::US_CT);
        v.push(Code::US_NY);
        proof {
            assert forall|c: Code| v@.contains(c) by {
                assert(v@[spec_ordinal(c)] == c);
            }
        }
        v
    }
}

/// Totality: every member of the enumeration has a non-empty canonical
/// code string.
pub proof fn lemma_code_nonempty(c: Code)
    ensures
        code_chars(c).len() > 0,
{
    reveal_strlit("FR-75");
    reveal_strlit("FR-IDF");
    reveal_strlit("GB-ABC");
    reveal_strlit("US-AZ");
    reveal_strlit("US-CA");
    reveal_strlit("US-CO");
    reveal_strlit("US-CT");
    reveal_strlit("US-NY");
}

/// Uniqueness: no two members of the enumeration share a canonical code
/// string.
pub proof fn lemma_codes_distinct(a: Code, b: Code)
    requires
        code_chars(a) == code_chars(b),
    ensures
        a == b,
{
    lemma_parse_render_round_trip(a);
    lemma_parse_render_round_trip(b);
    assert(Ok::<Code, SubdivisionCodeParseError>(a) == Ok::<Code, SubdivisionCodeParseError>(b));
}

/// Round trip, one direction: parsing the canonical rendering of any
/// member yields that member back.
pub proof fn lemma_parse_render_round_trip(c: Code)
    ensures
        spec_parse(code_chars(c)) == Ok::<Code, SubdivisionCodeParseError>(c),
{
    reveal_strlit("FR-75");
    reveal_strlit("FR-IDF");
    reveal_strlit("GB-ABC");
    reveal_strlit("US-AZ");
    reveal_strlit("US-CA");
    reveal_strlit("US-CO");
    reveal_strlit("US-CT");
    reveal_strlit("US-NY");
    assert("FR-75"@ =~= seq!['F', 'R', '-', '7', '5']);
    assert("FR-IDF"@ =~= seq!['F', 'R', '-', 'I', 'D', 'F']);
    assert("GB-ABC"@ =~= seq!['G', 'B', '-', 'A', 'B', 'C']);
    assert("US-AZ"@ =~= seq!['U', 'S', '-', 'A', 'Z']);
    assert("US-CA"@ =~= seq!['U', 'S', '-', 'C', 'A']);
    assert("US-CO"@ =~= seq!['U', 'S', '-', 'C', 'O']);
    assert("US-CT"@ =~= seq!['U', 'S', '-', 'C', 'T']);
    assert("US-NY"@ =~= seq!['U', 'S', '-', 'N', 'Y']);
    match c {
        Code::FR_75 => assert(spec_parse(code_chars(c)) == Ok::<Code, SubdivisionCodeParseError>(c)),
        Code::FR_IDF => assert(spec_parse(code_chars(c)) == Ok::<Code, SubdivisionCodeParseError>(c)),
        Code::GB_ABC => assert(spec_parse(code_chars(c)) == Ok::<Code, SubdivisionCodeParseError>(c)),
        Code::US_AZ => assert(spec_parse(code_chars(c)) == Ok::<Code, SubdivisionCodeParseError>(c)),
        Code::US_CA => assert(spec_parse(code_chars(c)) == Ok::<Code, SubdivisionCodeParseError>(c)),
        Code::US_CO => assert(spec_parse(code_chars(c)) == Ok::<Code, SubdivisionCodeParseError>(c)),
        Code::US_CT => assert(spec_parse(code_chars(c)) == Ok::<Code, SubdivisionCodeParseError>(c)),
        Code::US_NY => assert(spec_parse(code_chars(c)) == Ok::<Code, SubdivisionCodeParseError>(c)),
    }
}

/// Round trip, other direction: a string that parses successfully is
/// exactly the canonical rendering of the member it parses to.
pub proof fn lemma_render_parse_round_trip(s: Seq<char>, c: Code)
    requires
        spec_parse(s) == Ok::<Code, SubdivisionCodeParseError>(c),
    ensures
        code_chars(c) == s,
{
}

/// An administrative subdivision as specified by the ISO 3166-2 standard
#[derive(Debug, PartialEq, Eq, Structural)]
pub struct Subdivision {
    code: Code,
}

impl Subdivision {
    /// The code this subdivision denotes.
    pub closed spec fn spec_code(&self) -> Code {
        self.code
    }

    /// Wraps a code directly; every member of the closed enumeration is a
    /// valid subdivision.
    pub fn new(code: Code) -> (r: Subdivision)
        ensures
            r.spec_code() == code,
    {
        Subdivision { code }
    }

    /// Returns the subdivision code
    pub fn code(&self) -> (r: Code)
        ensures
            r == self.spec_code(),
    {
        self.code
    }

    /// Parses a subdivision from a canonical code string; succeeds exactly
    /// where `Code::from_str` does.
    pub fn from_str(s: &str) -> (r: Result<Subdivision, SubdivisionCodeParseError>)
        ensures
            match r {
                Ok(sub) => {
                    &&& spec_parse(s@) == Ok::<Code, SubdivisionCodeParseError>(sub.spec_code())
                    &&& s@ == code_chars(sub.spec_code())
                },
                Err(e) => spec_parse(s@) == Err::<Code, SubdivisionCodeParseError>(e),
            },
    {
        match Code::from_str(s) {
            Ok(code) => Ok(Subdivision { code }),
            Err(e) => Err(e),
        }
    }

    /// The static display name recorded for this subdivision's code.
    pub fn name(&self) -> (r: &'static str)
        ensures
            r@ == name_chars(self.spec_code()),
    {
        self.code.name()
    }

    /// The static subdivision-type label recorded for this subdivision's
    /// code.
    pub fn ty(&self) -> (r: &'static str)
        ensures
            r@ == type_chars(self.spec_code()),
    {
        self.code.ty()
    }

    /// The wire form of this subdivision: the bare canonical code string.
    pub fn to_string(&self) -> (r: String)
        ensures
            r@ == code_chars(self.spec_code()),
    {
        self.code.to_string()
    }
}

/// Serialization symmetry: a subdivision's wire form is its canonical code
/// string, and any subdivision deserialized from that string equals the
/// original.
pub proof fn lemma_serialization_symmetry(sub: Subdivision, other: Subdivision)
    requires
        spec_parse(code_chars(sub.spec_code())) == Ok::<Code, SubdivisionCodeParseError>(
            other.spec_code(),
        ),
    ensures
        other == sub,
{
    lemma_parse_render_round_trip(sub.spec_code());
    assert(other.spec_code() == sub.spec_code());
}

} // verus!
