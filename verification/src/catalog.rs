//! The declarative catalog document: a line-based text with two optional
//! bindings, `packages` and `casks`, each an array of double-quoted names,
//! as in
//!
//! ```text
//! # units the workstation should have
//! packages = ["jq", "ripgrep"]
//! casks = []
//! ```
//!
//! Blank lines and `#` comment lines are skipped; bindings of other keys
//! are ignored.  A missing document is a valid, common state and yields the
//! empty desired set; a present but malformed document is rejected with an
//! error naming the offending line or field.

use vstd::prelude::*;
use crate::reconcile::DesiredPackageSet;
use crate::text::{
    eq_str, find_char_in, find_index, split_char, split_str, trim, trim_str, views_of,
};

verus! {

/// The two declared fields of the catalog document.
#[derive(PartialEq, Eq, Structural, Clone, Copy, Debug)]
pub enum CatalogField {
    Packages,
    Casks,
}

/// Why a present catalog document was rejected.
#[derive(PartialEq, Eq, Structural, Clone, Copy, Debug)]
pub enum CatalogError {
    /// The 1-based line is neither blank, a comment, nor a `key = value`
    /// binding.
    Syntax { line: usize },
    /// The named field is bound to something other than an array of
    /// double-quoted strings.
    FieldNotStringArray { field: CatalogField },
    /// The named field is bound more than once.
    DuplicateField { field: CatalogField },
}

/// Mathematical image of a parsed catalog.
#[verifier::ext_equal]
pub struct CatalogView {
    pub packages: Seq<Seq<char>>,
    pub casks: Seq<Seq<char>>,
}

/// A double-quoted name: the quotes stripped, no quote inside.
pub open spec fn parse_name(t: Seq<char>) -> Option<Seq<char>> {
    if t.len() >= 2 && t[0] == '"' && t.last() == '"' && (forall|j: int|
        1 <= j < t.len() - 1 ==> t[j] != '"') {
        Some(t.subrange(1, t.len() - 1))
    } else {
        None
    }
}

/// The comma-separated pieces of an array body, each a trimmed quoted name.
pub open spec fn parse_elements(pieces: Seq<Seq<char>>) -> Option<Seq<Seq<char>>>
    decreases pieces.len(),
{
    if pieces.len() == 0 {
        Some(Seq::empty())
    } else {
        match parse_name(trim(pieces[0])) {
            Option::None => None,
            Option::Some(name) => match parse_elements(pieces.drop_first()) {
                Option::None => None,
                Option::Some(rest) => Some(seq![name] + rest),
            },
        }
    }
}

/// A trimmed field value as an array of quoted names: `[` names `]`.
pub open spec fn parse_string_array(v: Seq<char>) -> Option<Seq<Seq<char>>> {
    if v.len() >= 2 && v[0] == '[' && v.last() == ']' {
        let inner = v.subrange(1, v.len() - 1);
        if trim(inner).len() == 0 {
            Some(Seq::empty())
        } else {
            parse_elements(split_char(inner, ','))
        }
    } else {
        None
    }
}

/// Fold over the remaining lines of the document.  `lineno` is the 1-based
/// number of the first remaining line; `pk` and `ck` hold fields already
/// bound.  An absent field defaults to the empty list.
pub open spec fn parse_rest(
    lines: Seq<Seq<char>>,
    lineno: int,
    pk: Option<Seq<Seq<char>>>,
    ck: Option<Seq<Seq<char>>>,
) -> Result<CatalogView, CatalogError>
    decreases lines.len(),
{
    if lines.len() == 0 {
        Ok(
            CatalogView {
                packages: if pk is Some {
                    pk->Some_0
                } else {
                    Seq::empty()
                },
                casks: if ck is Some {
                    ck->Some_0
                } else {
                    Seq::empty()
                },
            },
        )
    } else {
        let line = lines[0];
        let t = trim(line);
        if t.len() == 0 || t[0] == '#' {
            parse_rest(lines.drop_first(), lineno + 1, pk, ck)
        } else {
            let k = find_index(line, '=');
            if k < 0 {
                Err(CatalogError::Syntax { line: lineno as usize })
            } else {
                let key = trim(line.subrange(0, k));
                let val = trim(line.subrange(k + 1, line.len() as int));
                if key == "packages"@ {
                    if pk is Some {
                        Err(CatalogError::DuplicateField { field: CatalogField::Packages })
                    } else {
                        match parse_string_array(val) {
                            Option::None => Err(
                                CatalogError::FieldNotStringArray {
                                    field: CatalogField::Packages,
                                },
                            ),
                            Option::Some(names) => parse_rest(
                                lines.drop_first(),
                                lineno + 1,
                                Some(names),
                                ck,
                            ),
                        }
                    }
                } else if key == "casks"@ {
                    if ck is Some {
                        Err(CatalogError::DuplicateField { field: CatalogField::Casks })
                    } else {
                        match parse_string_array(val) {
                            Option::None => Err(
                                CatalogError::FieldNotStringArray { field: CatalogField::Casks },
                            ),
                            Option::Some(names) => parse_rest(
                                lines.drop_first(),
                                lineno + 1,
                                pk,
                                Some(names),
                            ),
                        }
                    }
                } else {
                    parse_rest(lines.drop_first(), lineno + 1, pk, ck)
                }
            }
        }
    }
}

/// What a present catalog document denotes.
pub open spec fn parse_catalog_spec(doc: Seq<char>) -> Result<CatalogView, CatalogError> {
    parse_rest(split_char(doc, '\n'), 1, None, None)
}

/// Parse a quoted name; `t` is already trimmed.
fn parse_name_exec(t: &str) -> (r: Option<String>)
    ensures
        parse_name(t@) is None <==> r is None,
        parse_name(t@) is Some ==> (r matches Some(s) && s@ == parse_name(t@)->Some_0),
{
    let m = t.unicode_len();
    if m < 2 || t.get_char(0) != '"' || t.get_char(m - 1) != '"' {
        return None;
    }
    let mut j: usize = 1;
    while j < m - 1
        invariant
            1 <= j <= m - 1,
            m == t@.len(),
            m >= 2,
            forall|i: int| 1 <= i < j ==> t@[i] != '"',
        decreases m - j,
    {
        if t.get_char(j) == '"' {
            return None;
        }
        j += 1;
    }
    Some(t.substring_char(1, m - 1).to_owned())
}

/// Parse a field value as an array of quoted names; `v` is already trimmed.
fn parse_array_exec(v: &str) -> (r: Option<Vec<String>>)
    ensures
        parse_string_array(v@) is None <==> r is None,
        parse_string_array(v@) is Some ==> (r matches Some(names) && views_of(names@)
            == parse_string_array(v@)->Some_0),
{
    let n = v.unicode_len();
    if n < 2 || v.get_char(0) != '[' || v.get_char(n - 1) != ']' {
        return None;
    }
    let inner = v.substring_char(1, n - 1);
    proof {
        assert(inner@ == v@.subrange(1, v@.len() - 1));
    }
    if trim_str(inner).unicode_len() == 0 {
        let names: Vec<String> = Vec::new();
        proof {
            assert(views_of(names@) =~= Seq::<Seq<char>>::empty());
        }
        return Some(names);
    }
    let pieces = split_str(inner, ',');
    let ghost ps = views_of(pieces@);
    let mut names: Vec<String> = Vec::new();
    let mut i: usize = 0;
    proof {
        assert(ps.skip(0) =~= ps);
        assert(views_of(names@) + parse_elements(ps)->Some_0 =~= parse_elements(ps)->Some_0);
        assert(parse_string_array(v@) == parse_elements(ps));
    }
    while i < pieces.len()
        invariant
            0 <= i <= pieces@.len(),
            ps == views_of(pieces@),
            parse_string_array(v@) == parse_elements(ps),
            elements_relation(
                parse_elements(ps),
                views_of(names@),
                parse_elements(ps.skip(i as int)),
            ),
        decreases pieces@.len() - i,
    {
        proof {
            let rem = ps.skip(i as int);
            assert(rem[0] == pieces@[i as int]@);
            assert(rem.drop_first() =~= ps.skip(i + 1));
        }
        let t = trim_str(pieces[i].as_str());
        match parse_name_exec(t) {
            None => {
                proof {
                    let rem = ps.skip(i as int);
                    assert(parse_elements(rem) is None);
                }
                return None;
            },
            Some(name) => {
                proof {
                    let rem = ps.skip(i as int);
                    if parse_elements(ps.skip(i + 1)) is Some {
                        assert(parse_elements(rem)->Some_0 == seq![name@] + parse_elements(
                            ps.skip(i + 1),
                        )->Some_0);
                        assert(views_of(names@.push(name)) =~= views_of(names@).push(name@));
                        if parse_elements(ps) is Some {
                            assert(views_of(names@).push(name@) + parse_elements(
                                ps.skip(i + 1),
                            )->Some_0 =~= views_of(names@) + parse_elements(rem)->Some_0);
                        }
                    }
                }
                names.push(name);
            },
        }
        i += 1;
    }
    proof {
        assert(ps.skip(ps.len() as int) =~= Seq::<Seq<char>>::empty());
        assert(views_of(names@) + Seq::<Seq<char>>::empty() =~= views_of(names@));
    }
    Some(names)
}

/// Relation the element loop maintains: the names parsed so far, together
/// with the parse of the remaining pieces, determine the parse of the
/// whole piece list.
pub open spec fn elements_relation(
    whole: Option<Seq<Seq<char>>>,
    acc: Seq<Seq<char>>,
    rest: Option<Seq<Seq<char>>>,
) -> bool {
    match rest {
        Option::None => whole is None,
        Option::Some(r) => whole is Some && whole->Some_0 == acc + r,
    }
}

/// Parse a present catalog document.
pub fn parse_catalog(doc: &str) -> (r: Result<DesiredPackageSet, CatalogError>)
    ensures
        parse_catalog_spec(doc@) is Ok ==> (r matches Ok(d) && views_of(d.packages@)
            == parse_catalog_spec(doc@)->Ok_0.packages && views_of(d.casks@)
            == parse_catalog_spec(doc@)->Ok_0.casks),
        parse_catalog_spec(doc@) is Err ==> (r matches Err(e) && e == parse_catalog_spec(
            doc@,
        )->Err_0),
{
    let lines = split_str(doc, '\n');
    let ghost ls = views_of(lines@);
    let mut pk: Option<Vec<String>> = None;
    let mut ck: Option<Vec<String>> = None;
    let mut i: usize = 0;
    proof {
        assert(ls.skip(0) =~= ls);
    }
    while i < lines.len()
        invariant
            0 <= i <= lines@.len(),
            ls == views_of(lines@),
            parse_catalog_spec(doc@) == parse_rest(
                ls.skip(i as int),
                i + 1,
                opt_views(pk),
                opt_views(ck),
            ),
        decreases lines@.len() - i,
    {
        proof {
            let rem = ls.skip(i as int);
            assert(rem[0] == lines@[i as int]@);
            assert(rem.drop_first() =~= ls.skip(i + 1));
        }
        let line = lines[i].as_str();
        let t = trim_str(line);
        if t.unicode_len() == 0 || t.get_char(0) == '#' {
            i += 1;
            continue;
        }
        let k = match find_char_in(line, '=') {
            None => {
                return Err(CatalogError::Syntax { line: i + 1 });
            },
            Some(k) => k,
        };
        let n = line.unicode_len();
        proof {
            crate::text::lemma_find_index(line@, '=');
        }
        let key = trim_str(line.substring_char(0, k));
        let val = trim_str(line.substring_char(k + 1, n));
        proof {
            assert(key@ == trim(lines@[i as int]@.subrange(0, k as int)));
            assert(val@ == trim(
                lines@[i as int]@.subrange(k + 1, lines@[i as int]@.len() as int),
            ));
        }
        if eq_str(key, "packages") {
            if pk.is_some() {
                return Err(CatalogError::DuplicateField { field: CatalogField::Packages });
            }
            match parse_array_exec(val) {
                None => {
                    return Err(
                        CatalogError::FieldNotStringArray { field: CatalogField::Packages },
                    );
                },
                Some(names) => {
                    pk = Some(names);
                },
            }
        } else if eq_str(key, "casks") {
            if ck.is_some() {
                return Err(CatalogError::DuplicateField { field: CatalogField::Casks });
            }
            match parse_array_exec(val) {
                None => {
                    return Err(CatalogError::FieldNotStringArray { field: CatalogField::Casks });
                },
                Some(names) => {
                    ck = Some(names);
                },
            }
        }
        i += 1;
    }
    proof {
        assert(ls.skip(lines@.len() as int) =~= Seq::<Seq<char>>::empty());
    }
    let ghost gpk = opt_views(pk);
    let ghost gck = opt_views(ck);
    let packages = match pk {
        Some(v) => v,
        None => Vec::new(),
    };
    let casks = match ck {
        Some(v) => v,
        None => Vec::new(),
    };
    proof {
        if gpk is None {
            assert(views_of(packages@) =~= Seq::<Seq<char>>::empty());
        }
        if gck is None {
            assert(views_of(casks@) =~= Seq::<Seq<char>>::empty());
        }
    }
    Ok(DesiredPackageSet { packages, casks })
}

/// The bound names of a partially read document.
pub open spec fn opt_views(v: Option<Vec<String>>) -> Option<Seq<Seq<char>>> {
    match v {
        Option::None => None,
        Option::Some(names) => Some(views_of(names@)),
    }
}

/// Load the catalog: a missing document is not an error and denotes the
/// empty desired set, so reconciliation is skipped rather than failed.
pub fn load_catalog(doc: Option<&str>) -> (r: Result<DesiredPackageSet, CatalogError>)
    ensures
        doc is None ==> (r matches Ok(d) && d.packages@.len() == 0 && d.casks@.len() == 0),
        doc matches Some(text) ==> {
            &&& parse_catalog_spec(text@) is Ok ==> (r matches Ok(d) && views_of(d.packages@)
                == parse_catalog_spec(text@)->Ok_0.packages && views_of(d.casks@)
                == parse_catalog_spec(text@)->Ok_0.casks)
            &&& parse_catalog_spec(text@) is Err ==> (r matches Err(e) && e
                == parse_catalog_spec(text@)->Err_0)
        },
{
    match doc {
        None => Ok(DesiredPackageSet { packages: Vec::new(), casks: Vec::new() }),
        Some(text) => parse_catalog(text),
    }
}

} // verus!
