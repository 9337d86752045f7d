//! The font reader boundary and the script statistics built on it.
//!
//! The font collaborator parses font bytes and exposes the character map,
//! the units per em and the advance widths; those calls stand behind trusted
//! declarations. Everything computed from their plain results — the primary
//! script of a character map, the glyphs belonging to it, and whether the
//! advance widths are monospaced — is verified here.
//!
//! The primary script is the Unicode script with the most mapped codepoints,
//! the common, inherited and unknown classes left out; ties go to the script
//! seen first. A font with no counted script defaults to Latin.

use crate::MetrologyError;
use skrifa::raw::TableProvider;
use skrifa::MetadataProvider;
use unicode_script::UnicodeScript;
use vstd::prelude::*;

verus! {

/// The font reader's view of raw font bytes.
#[verifier::external_type_specification]
#[verifier::external_body]
pub struct ExFontRef<'a>(skrifa::FontRef<'a>);

/// The font reader's parse error.
#[verifier::external_type_specification]
#[verifier::external_body]
pub struct ExReadError(skrifa::raw::ReadError);

/// Whether the font reader accepts the bytes as a single font: a function of
/// the bytes alone.
pub uninterp spec fn font_parses(data: Seq<u8>) -> bool;

/// Relies on read-fonts' FontRef::new: parses a single in-memory font
/// beginning with a table directory, succeeding on exactly the byte
/// sequences the reader accepts.
#[verifier::external_body]
pub fn font_parse<'a>(data: &'a [u8]) -> (r: Result<skrifa::FontRef<'a>, skrifa::raw::ReadError>)
    ensures
        r is Ok <==> font_parses(data@),
{
    skrifa::FontRef::new(data)
}

/// Parses font bytes, mapping the font reader's error to the library's: the
/// result is a font exactly when the reader accepts the bytes, and the parse
/// error otherwise.
pub fn parse_font<'a>(data: &'a [u8]) -> (r: Result<skrifa::FontRef<'a>, MetrologyError>)
    ensures
        r is Ok <==> font_parses(data@),
        r is Err ==> r->Err_0 == MetrologyError::FontParse,
{
    match font_parse(data) {
        Ok(f) => Ok(f),
        Err(_) => Err(MetrologyError::FontParse),
    }
}

/// Relies on skrifa's Charmap::mappings: the codepoint-to-glyph pairs of the
/// font's character map, each glyph id widened to its scalar.
#[verifier::external_body]
pub fn charmap_entries(font: &skrifa::FontRef) -> Vec<(u32, u32)> {
    font.charmap().mappings().map(|(cp, gid)| (cp, gid.to_u32())).collect()
}

/// Relies on read-fonts' Head::units_per_em, reached through the head table.
#[verifier::external_body]
pub fn units_per_em(font: &skrifa::FontRef) -> Result<u16, skrifa::raw::ReadError> {
    font.head().map(|h| h.units_per_em())
}

/// Relies on read-fonts' Hmtx::advance, reached through the hmtx table: the
/// advance width of one glyph, when the font has one for it.
#[verifier::external_body]
pub fn advance_width(font: &skrifa::FontRef, gid: u32) -> Option<u16> {
    font.hmtx().ok().and_then(|h| h.advance(skrifa::GlyphId::new(gid)))
}

/// The four-letter short names of the scripts in a character's script
/// extension, in the iteration order of the script tables. The result is a
/// function of the character and the Unicode data alone.
pub uninterp spec fn script_names(c: char) -> Seq<Seq<char>>;

/// Relies on unicode-script's script_extension and short_name: the short
/// names of the character's scripts, which depend on the character alone.
#[verifier::external_body]
fn scripts_of_char(c: char) -> (r: Vec<String>)
    ensures
        r@.map_values(|s: String| s@) == script_names(c),
{
    c.script_extension().iter().map(|s| s.short_name().to_string()).collect()
}

/// Relies on char::from_u32 of std: a character for every scalar value that
/// is not a surrogate and not above the last codepoint.
#[verifier::external_body]
fn char_of(cp: u32) -> (r: Option<char>)
    ensures
        match r {
            Some(c) => c as u32 == cp && c == char_spec(cp),
            None => cp > 0x10FFFF || (0xD800 <= cp <= 0xDFFF),
        },
{
    char::from_u32(cp)
}

/// Whether a script name is left out of the count: the common, inherited and
/// unknown classes say nothing about a font's writing system.
pub open spec fn uncounted(name: Seq<char>) -> bool {
    name == "Zyyy"@ || name == "Zinh"@ || name == "Zzzz"@
}

/// Whether a scalar value denotes a character.
pub open spec fn valid_scalar(cp: u32) -> bool {
    !(cp > 0x10FFFF || (0xD800 <= cp <= 0xDFFF))
}

/// The character a valid scalar denotes.
pub uninterp spec fn char_spec(cp: u32) -> char;

/// The counted script names of one codepoint: the script extension of its
/// character, without the uncounted classes; nothing for a scalar that is no
/// character.
pub open spec fn counted_names(cp: u32) -> Seq<Seq<char>> {
    if !valid_scalar(cp) {
        Seq::empty()
    } else {
        script_names(char_spec(cp)).filter(|n: Seq<char>| !uncounted(n))
    }
}

/// One tally step: the name's count goes up by one, saturating at the
/// largest count; a new name joins at the back with one.
pub open spec fn bump(tab: Seq<(Seq<char>, u64)>, name: Seq<char>) -> Seq<(Seq<char>, u64)>
    decreases tab.len(),
{
    if tab.len() == 0 {
        seq![(name, 1u64)]
    } else if tab[0].0 == name {
        seq![
            (
                tab[0].0,
                if tab[0].1 < u64::MAX {
                    (tab[0].1 + 1) as u64
                } else {
                    tab[0].1
                },
            ),
        ] + tab.drop_first()
    } else {
        seq![tab[0]] + bump(tab.drop_first(), name)
    }
}

/// The tally after the names of one codepoint, from name `j` on.
pub open spec fn bump_names(
    tab: Seq<(Seq<char>, u64)>,
    names: Seq<Seq<char>>,
    j: int,
) -> Seq<(Seq<char>, u64)>
    decreases names.len() - j,
{
    if j < 0 || j >= names.len() {
        tab
    } else {
        bump_names(bump(tab, names[j]), names, j + 1)
    }
}

/// The script tally of the first `i` codepoints: each counted name of each
/// codepoint bumps its count, names appearing in first-seen order.
pub open spec fn tally(cps: Seq<u32>, i: int) -> Seq<(Seq<char>, u64)>
    decreases i,
{
    if i <= 0 {
        Seq::empty()
    } else {
        bump_names(tally(cps, i - 1), counted_names(cps[i - 1]), 0)
    }
}

/// The first name with the greatest count, scanning from `i` with the
/// leading candidate in hand.
pub open spec fn best_from(tab: Seq<(Seq<char>, u64)>, i: int, best: (Seq<char>, u64)) -> Seq<
    char,
>
    decreases tab.len() - i,
{
    if i < 0 || i >= tab.len() {
        best.0
    } else if tab[i].1 > best.1 {
        best_from(tab, i + 1, tab[i])
    } else {
        best_from(tab, i + 1, best)
    }
}

/// The primary script of a list of codepoints: the first counted script name
/// with the greatest tally, or Latin when nothing was counted.
pub open spec fn primary_script_spec(cps: Seq<u32>) -> Seq<char> {
    let tab = tally(cps, cps.len() as int);
    if tab.len() == 0 {
        "Latn"@
    } else {
        best_from(tab, 1, tab[0])
    }
}

/// Bumping a name present first at position `k` raises that count alone.
proof fn lemma_bump_found(tab: Seq<(Seq<char>, u64)>, name: Seq<char>, k: int)
    requires
        0 <= k < tab.len(),
        tab[k].0 == name,
        forall|j: int| 0 <= j < k ==> (#[trigger] tab[j]).0 != name,
    ensures
        bump(tab, name) =~= tab.update(
            k,
            (
                name,
                if tab[k].1 < u64::MAX {
                    (tab[k].1 + 1) as u64
                } else {
                    tab[k].1
                },
            ),
        ),
    decreases k,
{
    if k == 0 {
    } else {
        assert(tab[0].0 != name);
        lemma_bump_found(tab.drop_first(), name, k - 1);
    }
}

/// Bumping an absent name appends it with a count of one.
proof fn lemma_bump_absent(tab: Seq<(Seq<char>, u64)>, name: Seq<char>)
    requires
        forall|j: int| 0 <= j < tab.len() ==> (#[trigger] tab[j]).0 != name,
    ensures
        bump(tab, name) =~= tab.push((name, 1u64)),
    decreases tab.len(),
{
    if tab.len() > 0 {
        lemma_bump_absent(tab.drop_first(), name);
    }
}

/// The counts table as the exec loop carries it.
pub open spec fn tab_view(tab: Seq<(String, u64)>) -> Seq<(Seq<char>, u64)> {
    tab.map_values(|e: (String, u64)| (e.0@, e.1))
}

/// Adds one name to the counts table.
fn bump_exec(tab: &mut Vec<(String, u64)>, name: &String)
    ensures
        tab_view(final(tab)@) == bump(tab_view(old(tab)@), name@),
{
    let ghost tv = tab_view(old(tab)@);
    let ghost nm = name@;
    proof {
        assert(tab@ == old(tab)@);
    }
    let mut k: usize = 0;
    while k < tab.len()
        invariant
            0 <= k <= tab@.len(),
            tv == tab_view(tab@),
            tv == tab_view(old(tab)@),
            nm == name@,
            forall|j: int| 0 <= j < k ==> (#[trigger] tv[j]).0 != name@,
        decreases tab@.len() - k,
    {
        let hit = crate::results::str_eq(tab[k].0.as_str(), name.as_str());
        proof {
            assert(tv[k as int].0 == tab@[k as int].0@);
        }
        if hit {
            let ghost pre = tab@;
            proof {
                assert(tab@[k as int].0@ == nm);
            }
            let c = tab[k].1;
            let c2: u64 = if c < u64::MAX {
                c + 1
            } else {
                c
            };
            let old_e = tab.remove(k);
            tab.insert(k, (name.clone(), c2));
            proof {
                assert(old_e.0@ == nm);
                assert(tab@ =~= pre.update(k as int, (tab@[k as int].0, tab@[k as int].1)));
                assert(tab@[k as int].0@ == nm && tab@[k as int].1 == c2);
                lemma_bump_found(tv, nm, k as int);
                assert forall|m: int| 0 <= m < tab@.len() implies #[trigger] tab_view(tab@)[m]
                    == bump(tv, nm)[m] by {
                    if m != k {
                        assert(tab@[m] == pre[m]);
                    }
                }
                assert(tab_view(tab@) =~~= bump(tv, nm));
            }
            return ;
        }
        k = k + 1;
    }
    tab.push((name.clone(), 1));
    proof {
        lemma_bump_absent(tv, nm);
        assert(tab_view(tab@) =~~= bump(tv, nm));
    }
}

/// The primary script of a list of codepoints: the first counted script name
/// with the greatest tally over all codepoints, or Latin when nothing was
/// counted.
pub fn primary_script_of(codepoints: &Vec<u32>) -> (r: String)
    ensures
        r@ == primary_script_spec(codepoints@),
{
    let mut tab: Vec<(String, u64)> = Vec::new();
    let mut i: usize = 0;
    proof {
        assert(tab_view(tab@) =~= tally(codepoints@, 0));
    }
    while i < codepoints.len()
        invariant
            0 <= i <= codepoints@.len(),
            tab_view(tab@) == tally(codepoints@, i as int),
        decreases codepoints@.len() - i,
    {
        let cp = codepoints[i];
        match char_of(cp) {
            None => {
                proof {
                    assert(counted_names(cp) =~= Seq::<Seq<char>>::empty());
                }
            },
            Some(c) => {
                proof {
                    assert(valid_scalar(cp));
                    assert(c == char_spec(cp));
                }
                let names = scripts_of_char(c);
                let ghost all = script_names(c);
                let ghost kept = counted_names(cp);
                let ghost pred = |n: Seq<char>| !uncounted(n);
                let ghost start_tab = tab_view(tab@);
                let mut j: usize = 0;
                proof {
                    assert(kept == all.filter(pred));
                    assert(all.take(0).filter(pred) =~= Seq::<Seq<char>>::empty());
                }
                while j < names.len()
                    invariant
                        0 <= j <= names@.len(),
                        names@.map_values(|s: String| s@) == all,
                        kept == all.filter(pred),
                        pred == (|n: Seq<char>| !uncounted(n)),
                        all.take(j as int).filter(pred) == kept.take(
                            all.take(j as int).filter(pred).len() as int,
                        ),
                        all.take(j as int).filter(pred).len() <= kept.len(),
                        bump_names(
                            tab_view(tab@),
                            kept,
                            all.take(j as int).filter(pred).len() as int,
                        ) == bump_names(start_tab, kept, 0),
                    decreases names@.len() - j,
                {
                    let ghost done = all.take(j as int).filter(pred).len() as int;
                    let nm = &names[j];
                    let zyyy: &str = "Zyyy";
                    let zinh: &str = "Zinh";
                    let zzzz: &str = "Zzzz";
                    let skip_it = crate::results::str_eq(nm.as_str(), zyyy)
                        || crate::results::str_eq(nm.as_str(), zinh) || crate::results::str_eq(
                        nm.as_str(),
                        zzzz,
                    );
                    proof {
                        assert(all[j as int] == names@[j as int]@);
                        assert(skip_it == uncounted(all[j as int]));
                        crate::stats::lemma_filter_push(all.take(j as int), pred, all[j as int]);
                        assert(all.take(j as int).push(all[j as int]) =~= all.take(j as int + 1));
                        crate::stats::lemma_filter_prefix(all, pred, j as int + 1);
                        assert(all.take(j as int + 1).filter(pred) == kept.take(
                            all.take(j as int + 1).filter(pred).len() as int,
                        ));
                    }
                    if !skip_it {
                        proof {
                            assert(all.take(j as int + 1).filter(pred) == all.take(
                                j as int,
                            ).filter(pred).push(all[j as int]));
                            assert(kept.take(done + 1) == kept.take(done).push(all[j as int]));
                            assert(done < kept.len());
                            assert(kept.take(done + 1)[done] == kept[done]);
                            assert(kept.take(done).push(all[j as int])[done] == all[j as int]);
                            assert(kept[done] == all[j as int]);
                        }
                        let owned = nm.clone();
                        proof {
                            assert(owned@ == all[j as int]);
                        }
                        bump_exec(&mut tab, &owned);
                        proof {
                            assert(bump_names(tab_view(tab@), kept, done + 1) == bump_names(
                                start_tab,
                                kept,
                                0,
                            ));
                        }
                    }
                    j = j + 1;
                }
                proof {
                    assert(all.take(names@.len() as int) =~= all);
                    let done = all.take(names@.len() as int).filter(pred).len() as int;
                    assert(done == kept.len());
                    assert(bump_names(tab_view(tab@), kept, kept.len() as int) == tab_view(tab@));
                }
            },
        }
        i = i + 1;
    }
    if tab.len() == 0 {
        let latin: &str = "Latn";
        let r = crate::results::str_to_string(latin);
        return r;
    }
    let best0 = tab[0].0.clone();
    let mut best_name: String = best0;
    let mut best_count: u64 = tab[0].1;
    let mut k: usize = 1;
    let ghost tv = tab_view(tab@);
    proof {
        assert(tv[0] == (tab@[0].0@, tab@[0].1));
    }
    while k < tab.len()
        invariant
            1 <= k <= tab@.len(),
            tab@.len() > 0,
            tv == tab_view(tab@),
            best_from(tv, k as int, (best_name@, best_count)) == best_from(tv, 1, tv[0]),
        decreases tab@.len() - k,
    {
        proof {
            assert(tv[k as int] == (tab@[k as int].0@, tab@[k as int].1));
        }
        if tab[k].1 > best_count {
            best_name = tab[k].0.clone();
            best_count = tab[k].1;
        }
        k = k + 1;
    }
    best_name
}

/// The glyph ids of the character-map entries whose character belongs to the
/// script named.
pub open spec fn glyphs_of_script(entries: Seq<(u32, u32)>, name: Seq<char>) -> Seq<u32> {
    entries.filter(
        |e: (u32, u32)| valid_scalar(e.0) && script_names(char_spec(e.0)).contains(name),
    ).map_values(|e: (u32, u32)| e.1)
}

/// The glyphs of the primary script: the glyph ids mapped from codepoints
/// whose script extension holds the primary script of the whole map.
pub fn glyphs_for_primary_script_of(entries: &Vec<(u32, u32)>) -> (r: Vec<u32>)
    ensures
        r@ == glyphs_of_script(
            entries@,
            primary_script_spec(entries@.map_values(|e: (u32, u32)| e.0)),
        ),
{
    let mut cps: Vec<u32> = Vec::new();
    let mut i: usize = 0;
    while i < entries.len()
        invariant
            0 <= i <= entries@.len(),
            cps@ == entries@.take(i as int).map_values(|e: (u32, u32)| e.0),
        decreases entries@.len() - i,
    {
        cps.push(entries[i].0);
        proof {
            assert(entries@.take(i as int + 1).map_values(|e: (u32, u32)| e.0) =~= entries@.take(
                i as int,
            ).map_values(|e: (u32, u32)| e.0).push(entries@[i as int].0));
        }
        i = i + 1;
    }
    proof {
        assert(entries@.take(entries@.len() as int) =~= entries@);
    }
    let primary = primary_script_of(&cps);
    let ghost pname = primary_script_spec(entries@.map_values(|e: (u32, u32)| e.0));
    let ghost pred = |e: (u32, u32)| valid_scalar(e.0) && script_names(char_spec(e.0)).contains(
        pname,
    );
    let mut out: Vec<u32> = Vec::new();
    let mut i: usize = 0;
    proof {
        reveal(Seq::filter);
        assert(entries@.take(0).filter(pred) =~= Seq::<(u32, u32)>::empty());
        assert(out@ =~= entries@.take(0).filter(pred).map_values(|e: (u32, u32)| e.1));
    }
    while i < entries.len()
        invariant
            0 <= i <= entries@.len(),
            primary@ == pname,
            pred == (|e: (u32, u32)|
                valid_scalar(e.0) && script_names(char_spec(e.0)).contains(pname)),
            out@ == entries@.take(i as int).filter(pred).map_values(|e: (u32, u32)| e.1),
        decreases entries@.len() - i,
    {
        let (cp, gid) = entries[i];
        let keep: bool = match char_of(cp) {
            None => {
                proof {
                    assert(!valid_scalar(cp));
                }
                false
            },
            Some(c) => {
                proof {
                    assert(valid_scalar(cp));
                    assert(c == char_spec(cp));
                }
                let names = scripts_of_char(c);
                let mut j: usize = 0;
                let mut found = false;
                while j < names.len()
                    invariant
                        0 <= j <= names@.len(),
                        names@.map_values(|s: String| s@) == script_names(c),
                        primary@ == pname,
                        found == exists|m: int|
                            0 <= m < j && #[trigger] script_names(c)[m] == pname,
                    decreases names@.len() - j,
                {
                    let hit = crate::results::str_eq(names[j].as_str(), primary.as_str());
                    proof {
                        assert(script_names(c)[j as int] == names@[j as int]@);
                    }
                    if hit {
                        found = true;
                    }
                    j = j + 1;
                }
                proof {
                    if found {
                        assert(script_names(c).contains(pname));
                    } else {
                        assert(!script_names(c).contains(pname)) by {
                            if script_names(c).contains(pname) {
                                let m = choose|m: int|
                                    0 <= m < script_names(c).len() && #[trigger] script_names(
                                        c,
                                    )[m] == pname;
                                assert(false);
                            }
                        }
                    }
                }
                found
            },
        };
        proof {
            assert(keep == pred(entries@[i as int]));
            crate::stats::lemma_filter_push(entries@.take(i as int), pred, entries@[i as int]);
            assert(entries@.take(i as int).push(entries@[i as int]) =~= entries@.take(i as int + 1));
            if keep {
                assert(entries@.take(i as int + 1).filter(pred).map_values(|e: (u32, u32)| e.1)
                    =~= entries@.take(i as int).filter(pred).map_values(|e: (u32, u32)| e.1).push(
                    entries@[i as int].1,
                ));
            } else {
                assert(entries@.take(i as int + 1).filter(pred).map_values(|e: (u32, u32)| e.1)
                    =~= entries@.take(i as int).filter(pred).map_values(|e: (u32, u32)| e.1));
            }
        }
        if keep {
            out.push(gid);
        }
        i = i + 1;
    }
    proof {
        assert(entries@.take(entries@.len() as int) =~= entries@);
    }
    out
}

/// Whether a list of advance widths is monospaced: every width equal.
pub open spec fn monospaced_spec(widths: Seq<u16>) -> bool {
    forall|i: int, j: int| 0 <= i < widths.len() && 0 <= j < widths.len() ==> widths[i] == widths[j]
}

/// Whether all the widths are one: a font whose glyphs share one advance
/// width is monospaced; one with several distinct widths is not.
pub fn monospaced(widths: &Vec<u16>) -> (r: bool)
    ensures
        r == monospaced_spec(widths@),
{
    if widths.len() == 0 {
        return true;
    }
    let w0 = widths[0];
    let mut i: usize = 1;
    while i < widths.len()
        invariant
            1 <= i <= widths@.len(),
            widths@.len() > 0,
            w0 == widths@[0],
            forall|j: int| 0 <= j < i ==> widths@[j] == w0,
        decreases widths@.len() - i,
    {
        if widths[i] != w0 {
            return false;
        }
        i = i + 1;
    }
    true
}

} // verus!
