use crate::text::str_eq;
use vstd::prelude::*;

verus! {

/// A country as represented by the ISO 3166-1 standard.
pub struct CountryRecord {
    pub alpha_2: String,
    pub alpha_3: String,
    pub name: String,
    pub numeric: u16,
}

/// A country subdivision as represented by the ISO 3166-2 standard,
/// exactly as it stands in the raw dataset.
pub struct SubdivisionRecord {
    pub code: String,
    pub name: String,
    pub ty: String,
    pub parent: Option<String>,
}

/// A dataset entry normalized for emission: the raw record together with
/// the enumeration-member identifier derived from its code.
pub struct GeneratedVariant {
    pub code_identifier: String,
    pub code: String,
    pub name: String,
    pub ty: String,
    pub parent: Option<String>,
}

/// The mathematical value of an optional string.
pub open spec fn opt_chars(o: Option<String>) -> Option<Seq<char>> {
    match o {
        Some(s) => Some(s@),
        None => None,
    }
}

pub ghost struct CountryRecordView {
    pub alpha_2: Seq<char>,
    pub alpha_3: Seq<char>,
    pub name: Seq<char>,
    pub numeric: u16,
}

pub ghost struct SubdivisionRecordView {
    pub code: Seq<char>,
    pub name: Seq<char>,
    pub ty: Seq<char>,
    pub parent: Option<Seq<char>>,
}

pub ghost struct GeneratedVariantView {
    pub code_identifier: Seq<char>,
    pub code: Seq<char>,
    pub name: Seq<char>,
    pub ty: Seq<char>,
    pub parent: Option<Seq<char>>,
}

impl View for CountryRecord {
    type V = CountryRecordView;

    open spec fn view(&self) -> CountryRecordView {
        CountryRecordView {
            alpha_2: self.alpha_2@,
            alpha_3: self.alpha_3@,
            name: self.name@,
            numeric: self.numeric,
        }
    }
}

impl View for SubdivisionRecord {
    type V = SubdivisionRecordView;

    open spec fn view(&self) -> SubdivisionRecordView {
        SubdivisionRecordView {
            code: self.code@,
            name: self.name@,
            ty: self.ty@,
            parent: opt_chars(self.parent),
        }
    }
}

impl View for GeneratedVariant {
    type V = GeneratedVariantView;

    open spec fn view(&self) -> GeneratedVariantView {
        GeneratedVariantView {
            code_identifier: self.code_identifier@,
            code: self.code@,
            name: self.name@,
            ty: self.ty@,
            parent: opt_chars(self.parent),
        }
    }
}

/// The values of a sequence of countries.
pub open spec fn country_views(cs: Seq<CountryRecord>) -> Seq<CountryRecordView> {
    cs.map_values(|c: CountryRecord| c@)
}

/// The values of a sequence of raw records.
pub open spec fn record_views(rs: Seq<SubdivisionRecord>) -> Seq<SubdivisionRecordView> {
    rs.map_values(|r: SubdivisionRecord| r@)
}

/// The values of a sequence of normalized variants.
pub open spec fn variant_views(vs: Seq<GeneratedVariant>) -> Seq<GeneratedVariantView> {
    vs.map_values(|v: GeneratedVariant| v@)
}

/// The enumeration-member identifier derived from a canonical code:
/// every `-` replaced by `_`, case and everything else preserved.
pub open spec fn identifier_of(code: Seq<char>) -> Seq<char> {
    code.map_values(
        |c: char|
            if c == '-' {
                '_'
            } else {
                c
            },
    )
}

/// What normalization makes of one raw record.
pub open spec fn variant_of(r: SubdivisionRecordView) -> GeneratedVariantView {
    GeneratedVariantView {
        code_identifier: identifier_of(r.code),
        code: r.code,
        name: r.name,
        ty: r.ty,
        parent: r.parent,
    }
}

/// What normalization makes of the whole dataset, in order.
pub open spec fn variants_of(rs: Seq<SubdivisionRecordView>) -> Seq<GeneratedVariantView> {
    rs.map_values(|r: SubdivisionRecordView| variant_of(r))
}

/// Derives the enumeration-member identifier from a dash-separated code.
pub fn derive_identifier(code: &str) -> (r: String)
    ensures
        r@ == identifier_of(code@),
{
    let n = code.unicode_len();
    let mut out = String::new();
    let mut i: usize = 0;
    while i < n
        invariant
            n == code@.len(),
            i <= n,
            out@ == identifier_of(code@).take(i as int),
        decreases n - i,
    {
        let c = code.get_char(i);
        if c == '-' {
            out.append("_");
            proof {
                reveal_strlit("_");
                assert("_"@ =~= seq!['_']);
                assert(out@ =~= identifier_of(code@).take(i + 1));
            }
        } else {
            let piece = code.substring_char(i, i + 1);
            out.append(piece);
            proof {
                assert(out@ =~= identifier_of(code@).take(i + 1));
            }
        }
        i = i + 1;
    }
    proof {
        assert(identifier_of(code@).take(n as int) =~= identifier_of(code@));
    }
    out
}

impl GeneratedVariant {
    /// Normalizes one raw record, deriving its identifier from the
    /// dash-separated code and keeping every other field as it stands.
    pub fn from_record(r: &SubdivisionRecord) -> (v: GeneratedVariant)
        ensures
            v@ == variant_of(r@),
    {
        let parent = match &r.parent {
            Some(p) => Some(p.clone()),
            None => None,
        };
        GeneratedVariant {
            code_identifier: derive_identifier(r.code.as_str()),
            code: r.code.clone(),
            name: r.name.clone(),
            ty: r.ty.clone(),
            parent,
        }
    }
}

/// Normalizes the whole dataset, in dataset order.
pub fn normalize_dataset(records: &Vec<SubdivisionRecord>) -> (vs: Vec<GeneratedVariant>)
    ensures
        variant_views(vs@) == variants_of(record_views(records@)),
{
    let mut vs: Vec<GeneratedVariant> = Vec::new();
    let mut i: usize = 0;
    while i < records.len()
        invariant
            i <= records@.len(),
            vs@.len() == i,
            forall|j: int| 0 <= j < i ==> #[trigger] vs@[j]@ == variant_of(records@[j]@),
        decreases records@.len() - i,
    {
        vs.push(GeneratedVariant::from_record(&records[i]));
        i = i + 1;
    }
    proof {
        assert(variant_views(vs@) =~= variants_of(record_views(records@)));
    }
    vs
}

/// No two normalized variants share a derived identifier.
pub open spec fn identifiers_unique(vs: Seq<GeneratedVariantView>) -> bool {
    forall|i: int, j: int|
        0 <= i < j < vs.len() ==> vs[i].code_identifier != vs[j].code_identifier
}

/// Decides whether the derived identifiers of the normalized dataset are
/// pairwise distinct.
pub fn identifiers_are_unique(vs: &Vec<GeneratedVariant>) -> (r: bool)
    ensures
        r == identifiers_unique(variant_views(vs@)),
{
    let ghost gvs = variant_views(vs@);
    let mut i: usize = 0;
    while i < vs.len()
        invariant
            gvs == variant_views(vs@),
            gvs.len() == vs@.len(),
            i <= gvs.len(),
            forall|p: int, q: int|
                0 <= p < q < gvs.len() && p < i ==> gvs[p].code_identifier != gvs[q].code_identifier,
        decreases vs@.len() - i,
    {
        let mut j: usize = i + 1;
        while j < vs.len()
            invariant
                gvs == variant_views(vs@),
                gvs.len() == vs@.len(),
                i < j <= gvs.len(),
                forall|p: int, q: int|
                    0 <= p < q < gvs.len() && p < i ==> gvs[p].code_identifier
                        != gvs[q].code_identifier,
                forall|q: int| i < q < j ==> gvs[i as int].code_identifier
                    != gvs[q].code_identifier,
            decreases vs@.len() - j,
        {
            if vs[i].code_identifier == vs[j].code_identifier {
                proof {
                    assert(gvs[i as int].code_identifier == gvs[j as int].code_identifier);
                }
                return false;
            }
            j = j + 1;
        }
        i = i + 1;
    }
    true
}

/// Identifier derivation is injective over codes that contain no
/// underscore of their own: two such codes with the same derived
/// identifier are the same code.
pub proof fn lemma_identifier_injective(a: Seq<char>, b: Seq<char>)
    requires
        !a.contains('_'),
        !b.contains('_'),
        identifier_of(a) == identifier_of(b),
    ensures
        a == b,
{
    assert(a.len() == b.len()) by {
        assert(identifier_of(a).len() == a.len());
        assert(identifier_of(b).len() == b.len());
    }
    assert forall|i: int| 0 <= i < a.len() implies a[i] == b[i] by {
        assert(identifier_of(a)[i] == identifier_of(b)[i]);
        assert(a[i] != '_');
        assert(b[i] != '_');
        if a[i] == '-' {
            assert(identifier_of(a)[i] == '_');
            assert(b[i] == '-');
        } else {
            assert(identifier_of(a)[i] == a[i]);
            assert(b[i] != '-');
            assert(identifier_of(b)[i] == b[i]);
        }
    }
    assert(a =~= b);
}

/// A dataset whose codes are pairwise distinct and free of underscores
/// normalizes to pairwise distinct identifiers: the derivation never
/// collapses two entries onto one enumeration member.
pub proof fn lemma_unique_codes_unique_identifiers(rs: Seq<SubdivisionRecordView>)
    requires
        forall|i: int, j: int| 0 <= i < j < rs.len() ==> rs[i].code != rs[j].code,
        forall|i: int| 0 <= i < rs.len() ==> !(#[trigger] rs[i].code).contains('_'),
    ensures
        identifiers_unique(variants_of(rs)),
{
    assert forall|i: int, j: int|
        0 <= i < j < rs.len() implies variants_of(rs)[i].code_identifier != variants_of(
        rs,
    )[j].code_identifier by {
        if variants_of(rs)[i].code_identifier == variants_of(rs)[j].code_identifier {
            lemma_identifier_injective(rs[i].code, rs[j].code);
        }
    }
}

/// The enumeration-member line emitted for one variant.
pub open spec fn enum_line(v: GeneratedVariantView) -> Seq<char> {
    "    "@ + v.code_identifier + ",\n"@
}

/// The enumeration-member lines of a run of variants, in order.
pub open spec fn enum_lines(vs: Seq<GeneratedVariantView>) -> Seq<char>
    decreases vs.len(),
{
    if vs.len() == 0 {
        Seq::empty()
    } else {
        enum_lines(vs.drop_last()) + enum_line(vs.last())
    }
}

/// The source text emitted for an optional parent code.
pub open spec fn parent_text(p: Option<Seq<char>>) -> Seq<char> {
    match p {
        None => "None"@,
        Some(s) => "Some(\""@ + s + "\")"@,
    }
}

/// The metadata-table line emitted for one variant: its member together
/// with the static association to code, name, type and parent.
pub open spec fn table_line(v: GeneratedVariantView) -> Seq<char> {
    "    (Code::"@ + v.code_identifier + ", \""@ + v.code + "\", \""@ + v.name + "\", \""@ + v.ty
        + "\", "@ + parent_text(v.parent) + "),\n"@
}

/// The metadata-table lines of a run of variants, in order.
pub open spec fn table_lines(vs: Seq<GeneratedVariantView>) -> Seq<char>
    decreases vs.len(),
{
    if vs.len() == 0 {
        Seq::empty()
    } else {
        table_lines(vs.drop_last()) + table_line(vs.last())
    }
}

/// The whole generated source unit: the closed enumeration, then the
/// per-member metadata table.
pub open spec fn rendered_unit(vs: Seq<GeneratedVariantView>) -> Seq<char> {
    "pub enum Code {\n"@ + enum_lines(vs) + "}\n\n"@
        + "pub const SUBDIVISIONS: &[(Code, &str, &str, &str, Option<&str>)] = &[\n"@
        + table_lines(vs) + "];\n"@
}

/// Appends one enumeration-member line.
fn append_enum_line(out: &mut String, v: &GeneratedVariant)
    ensures
        final(out)@ == old(out)@ + enum_line(v@),
{
    out.append("    ");
    out.append(v.code_identifier.as_str());
    out.append(",\n");
    proof {
        assert(out@ =~= old(out)@ + enum_line(v@));
    }
}

/// Appends one metadata-table line.
fn append_table_line(out: &mut String, v: &GeneratedVariant)
    ensures
        final(out)@ == old(out)@ + table_line(v@),
{
    out.append("    (Code::");
    out.append(v.code_identifier.as_str());
    out.append(", \"");
    out.append(v.code.as_str());
    out.append("\", \"");
    out.append(v.name.as_str());
    out.append("\", \"");
    out.append(v.ty.as_str());
    out.append("\", ");
    match &v.parent {
        None => out.append("None"),
        Some(p) => {
            out.append("Some(\"");
            out.append(p.as_str());
            out.append("\")");
        },
    }
    out.append("),\n");
    proof {
        assert(out@ =~= old(out)@ + table_line(v@));
    }
}

/// Renders the generated source unit for a run of normalized variants, in
/// dataset order. Emission is textual only: beyond the identifier carried
/// by each variant, no validation happens here.
pub fn render_unit(vs: &Vec<GeneratedVariant>) -> (out: String)
    ensures
        out@ == rendered_unit(variant_views(vs@)),
{
    let ghost gvs = variant_views(vs@);
    let mut out = String::from_str("pub enum Code {\n");
    let mut i: usize = 0;
    proof {
        assert(out@ =~= "pub enum Code {\n"@ + enum_lines(gvs.take(0)));
    }
    while i < vs.len()
        invariant
            gvs == variant_views(vs@),
            gvs.len() == vs@.len(),
            i <= gvs.len(),
            out@ == "pub enum Code {\n"@ + enum_lines(gvs.take(i as int)),
        decreases vs@.len() - i,
    {
        append_enum_line(&mut out, &vs[i]);
        proof {
            assert(gvs.take(i + 1).drop_last() =~= gvs.take(i as int));
            assert(gvs.take(i + 1).last() == gvs[i as int]);
            assert(out@ =~= "pub enum Code {\n"@ + enum_lines(gvs.take(i + 1)));
        }
        i = i + 1;
    }
    proof {
        assert(gvs.take(gvs.len() as int) =~= gvs);
    }
    out.append("}\n\n");
    out.append("pub const SUBDIVISIONS: &[(Code, &str, &str, &str, Option<&str>)] = &[\n");
    let ghost head = "pub enum Code {\n"@ + enum_lines(gvs) + "}\n\n"@
        + "pub const SUBDIVISIONS: &[(Code, &str, &str, &str, Option<&str>)] = &[\n"@;
    proof {
        assert(out@ =~= head + table_lines(gvs.take(0)));
    }
    let mut k: usize = 0;
    while k < vs.len()
        invariant
            gvs == variant_views(vs@),
            gvs.len() == vs@.len(),
            k <= gvs.len(),
            out@ == head + table_lines(gvs.take(k as int)),
        decreases vs@.len() - k,
    {
        append_table_line(&mut out, &vs[k]);
        proof {
            assert(gvs.take(k + 1).drop_last() =~= gvs.take(k as int));
            assert(gvs.take(k + 1).last() == gvs[k as int]);
            assert(out@ =~= head + table_lines(gvs.take(k + 1)));
        }
        k = k + 1;
    }
    proof {
        assert(gvs.take(gvs.len() as int) =~= gvs);
    }
    out.append("];\n");
    proof {
        assert(out@ =~= rendered_unit(gvs));
    }
    out
}

/// Errors that halt generation of the subdivision table.
#[derive(Clone, Copy, Debug, PartialEq, Eq, Structural)]
pub enum GenerateError {
    /// Two dataset entries derived the same enumeration-member
    /// identifier; emitting the table would silently drop one of them.
    DuplicateIdentifier,
}

/// Produces the generated source unit for the given dataset: the closed
/// `Code` enumeration with one member per record, in dataset order, and
/// the per-member metadata table.
///
/// Generation fails, and emits nothing, exactly when two records collapse
/// onto the same derived identifier.
pub fn generate_subdivision_file(records: &Vec<SubdivisionRecord>) -> (r: Result<
    String,
    GenerateError,
>)
    ensures
        match r {
            Ok(out) => {
                &&& identifiers_unique(variants_of(record_views(records@)))
                &&& out@ == rendered_unit(variants_of(record_views(records@)))
            },
            Err(e) => {
                &&& e == GenerateError::DuplicateIdentifier
                &&& !identifiers_unique(variants_of(record_views(records@)))
            },
        },
{
    let vs = normalize_dataset(records);
    if !identifiers_are_unique(&vs) {
        return Err(GenerateError::DuplicateIdentifier);
    }
    Ok(render_unit(&vs))
}

/// A code's two-letter prefix names one of the given countries.
pub open spec fn known_prefix(cs: Seq<CountryRecordView>, code: Seq<char>) -> bool {
    exists|i: int| 0 <= i < cs.len() && (#[trigger] cs[i].alpha_2) == code.take(2)
}

/// A record survives scoping when its code is long enough to carry a
/// country prefix and that prefix names a known country.
pub open spec fn scoped_keep(cs: Seq<CountryRecordView>, r: SubdivisionRecordView) -> bool {
    r.code.len() >= 2 && known_prefix(cs, r.code)
}

/// The subsequence of records that survive scoping, in dataset order.
pub open spec fn scoped(cs: Seq<CountryRecordView>, rs: Seq<SubdivisionRecordView>) -> Seq<
    SubdivisionRecordView,
>
    decreases rs.len(),
{
    if rs.len() == 0 {
        Seq::empty()
    } else {
        scoped(cs, rs.drop_last()) + if scoped_keep(cs, rs.last()) {
            seq![rs.last()]
        } else {
            Seq::empty()
        }
    }
}

/// Decides whether a code's two-letter prefix names one of the given
/// countries.
pub fn prefix_is_known(countries: &Vec<CountryRecord>, code: &str) -> (r: bool)
    requires
        code@.len() >= 2,
    ensures
        r == known_prefix(country_views(countries@), code@),
{
    let ghost cvs = country_views(countries@);
    let prefix = code.substring_char(0, 2);
    let mut i: usize = 0;
    while i < countries.len()
        invariant
            cvs == country_views(countries@),
            cvs.len() == countries@.len(),
            i <= cvs.len(),
            prefix@ == code@.take(2),
            forall|j: int| 0 <= j < i ==> (#[trigger] cvs[j].alpha_2) != code@.take(2),
        decreases countries@.len() - i,
    {
        if str_eq(prefix, countries[i].alpha_2.as_str()) {
            proof {
                assert(cvs[i as int].alpha_2 == code@.take(2));
            }
            return true;
        }
        i = i + 1;
    }
    false
}

/// Clones a raw record field for field.
fn clone_record(r: &SubdivisionRecord) -> (c: SubdivisionRecord)
    ensures
        c == *r,
{
    let parent = match &r.parent {
        Some(p) => Some(p.clone()),
        None => None,
    };
    let c = SubdivisionRecord {
        code: r.code.clone(),
        name: r.name.clone(),
        ty: r.ty.clone(),
        parent,
    };
    proof {
        assert(c == *r);
    }
    c
}

/// Scopes the dataset to the given countries: keeps, in dataset order,
/// exactly the records whose code carries the two-letter prefix of a
/// known country.
pub fn scope_to_countries(countries: &Vec<CountryRecord>, records: &Vec<SubdivisionRecord>) -> (kept:
    Vec<SubdivisionRecord>)
    ensures
        record_views(kept@) == scoped(country_views(countries@), record_views(records@)),
{
    let ghost cvs = country_views(countries@);
    let ghost rvs = record_views(records@);
    let mut kept: Vec<SubdivisionRecord> = Vec::new();
    let mut i: usize = 0;
    proof {
        assert(record_views(kept@) =~= scoped(cvs, rvs.take(0)));
    }
    while i < records.len()
        invariant
            cvs == country_views(countries@),
            rvs == record_views(records@),
            rvs.len() == records@.len(),
            i <= rvs.len(),
            record_views(kept@) == scoped(cvs, rvs.take(i as int)),
        decreases records@.len() - i,
    {
        let code_len = records[i].code.as_str().unicode_len();
        if code_len >= 2 && prefix_is_known(countries, records[i].code.as_str()) {
            kept.push(clone_record(&records[i]));
            proof {
                assert(scoped_keep(cvs, rvs[i as int]));
            }
        } else {
            proof {
                assert(!scoped_keep(cvs, rvs[i as int]));
            }
        }
        proof {
            assert(rvs.take(i + 1).drop_last() =~= rvs.take(i as int));
            assert(rvs.take(i + 1).last() == rvs[i as int]);
            assert(record_views(kept@) =~= scoped(cvs, rvs.take(i + 1)));
        }
        i = i + 1;
    }
    proof {
        assert(rvs.take(rvs.len() as int) =~= rvs);
    }
    kept
}

} // verus!
