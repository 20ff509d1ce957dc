//! The optional post-fetch line transform: the fetched body is split into
//! lines, blank lines are dropped, each remaining line is transformed, and
//! the lines are joined with single newlines (no trailing newline).
use vstd::prelude::*;
use vstd::string::{StrSliceExecFns, StringExecFns};
use crate::text::{lower_of, lowercase, spec_split, spec_join, split_by, join_with, string_eq};

verus! {

/// Which transform the `type` query parameter selected.
#[derive(Clone, Copy, Debug, PartialEq, Eq, Structural)]
pub enum FormatKind {
    Plain,
    AdguardHome,
}

/// A line starting with `.` becomes `||{rest}^`; any other line passes
/// through unchanged.
pub open spec fn adguard_line(l: Seq<char>) -> Seq<char> {
    if l.len() > 0 && l[0] == '.' {
        seq!['|', '|'] + l.drop_first() + seq!['^']
    } else {
        l
    }
}

pub open spec fn format_line(l: Seq<char>, kind: FormatKind) -> Seq<char> {
    match kind {
        FormatKind::Plain => l,
        FormatKind::AdguardHome => adguard_line(l),
    }
}

/// The non-blank lines, each transformed, in order.
pub open spec fn formatted_lines(lines: Seq<Seq<char>>, kind: FormatKind) -> Seq<Seq<char>>
    decreases lines.len(),
{
    if lines.len() == 0 {
        Seq::<Seq<char>>::empty()
    } else {
        let rest = formatted_lines(lines.drop_first(), kind);
        if lines[0].len() == 0 {
            rest
        } else {
            seq![format_line(lines[0], kind)] + rest
        }
    }
}

pub proof fn lemma_formatted_push(lines: Seq<Seq<char>>, x: Seq<char>, kind: FormatKind)
    ensures
        formatted_lines(lines.push(x), kind) == formatted_lines(lines, kind) + (if x.len() == 0 {
            Seq::<Seq<char>>::empty()
        } else {
            seq![format_line(x, kind)]
        }),
    decreases lines.len(),
{
    let tail = if x.len() == 0 {
        Seq::<Seq<char>>::empty()
    } else {
        seq![format_line(x, kind)]
    };
    if lines.len() == 0 {
        assert(lines.push(x)[0] == x);
        assert(lines.push(x).drop_first() =~~= Seq::<Seq<char>>::empty());
        assert(formatted_lines(Seq::<Seq<char>>::empty(), kind) =~~= Seq::<Seq<char>>::empty());
        assert(formatted_lines(lines.push(x), kind) =~~= formatted_lines(lines, kind) + tail);
    } else {
        assert(lines.push(x)[0] == lines[0]);
        assert(lines.push(x).drop_first() =~~= lines.drop_first().push(x));
        lemma_formatted_push(lines.drop_first(), x, kind);
        assert(formatted_lines(lines.push(x), kind) =~~= formatted_lines(lines, kind) + tail);
    }
}

/// The whole transform over the fetched body.
pub open spec fn spec_handle_format(content: Seq<char>, kind: FormatKind) -> Seq<char> {
    spec_join(formatted_lines(spec_split(content, '\n'), kind), seq!['\n'])
}

fn format_one_line(line: &String, kind: FormatKind) -> (r: String)
    ensures
        r@ == format_line(line@, kind),
{
    match kind {
        FormatKind::Plain => line.clone(),
        FormatKind::AdguardHome => {
            let n = line.as_str().unicode_len();
            if n > 0 && line.as_str().get_char(0) == '.' {
                let mut r: String = "||".to_owned();
                r.append(line.as_str().substring_char(1, n));
                r.append("^");
                proof {
                    reveal_strlit("||");
                    reveal_strlit("^");
                    assert("||"@ =~= seq!['|', '|']);
                    assert("^"@ =~= seq!['^']);
                    assert(line@.subrange(1, n as int) =~= line@.drop_first());
                    assert(r@ =~= adguard_line(line@));
                }
                r
            } else {
                line.clone()
            }
        },
    }
}

/// Splits the body into lines, drops blank lines, applies the selected
/// transform to each remaining line, and joins with single newlines; a
/// trailing newline of the input is not reproduced.
pub fn handle_format(content: &str, kind: FormatKind) -> (r: String)
    ensures
        r@ == spec_handle_format(content@, kind),
{
    let lines = split_by(content, '\n');
    let mut kept: Vec<String> = Vec::new();
    let mut i: usize = 0;
    proof {
        assert(lines.deep_view().take(0) =~~= Seq::<Seq<char>>::empty());
        assert(kept.deep_view() =~~= formatted_lines(lines.deep_view().take(0), kind));
    }
    while i < lines.len()
        invariant
            0 <= i <= lines@.len(),
            lines.deep_view().len() == lines@.len(),
            forall|k: int|
                0 <= k < lines@.len() ==> #[trigger] lines.deep_view()[k] == lines@[k]@,
            kept.deep_view() == formatted_lines(lines.deep_view().take(i as int), kind),
        decreases lines@.len() - i,
    {
        proof {
            lemma_formatted_push(
                lines.deep_view().take(i as int),
                lines.deep_view()[i as int],
                kind,
            );
            assert(lines.deep_view().take(i as int + 1) =~~= lines.deep_view().take(
                i as int,
            ).push(lines.deep_view()[i as int]));
        }
        if lines[i].as_str().unicode_len() > 0 {
            let f = format_one_line(&lines[i], kind);
            let ghost old_kept = kept.deep_view();
            kept.push(f);
            proof {
                assert(kept.deep_view() =~~= old_kept.push(f@));
                assert(kept.deep_view() =~~= formatted_lines(
                    lines.deep_view().take(i as int + 1),
                    kind,
                ));
            }
        } else {
            proof {
                assert(formatted_lines(lines.deep_view().take(i as int), kind)
                    + Seq::<Seq<char>>::empty() =~~= formatted_lines(
                    lines.deep_view().take(i as int),
                    kind,
                ));
            }
        }
        i += 1;
    }
    proof {
        assert(lines.deep_view().take(lines@.len() as int) =~~= lines.deep_view());
    }
    let r = join_with(&kept, "\n");
    proof {
        reveal_strlit("\n");
        assert("\n"@ =~= seq!['\n']);
    }
    r
}

/// Selects the transform from the `type` query parameter, compared
/// case-insensitively; anything else (or no parameter) selects none.
pub fn pick_format(type_param: Option<&String>) -> (r: FormatKind)
    ensures
        r is AdguardHome <==> (type_param matches Some(t) && lower_of(t@) == "adguardhome"@),
{
    match type_param {
        Some(t) => {
            let lower = lowercase(t.as_str());
            let word: String = "adguardhome".to_owned();
            if string_eq(&lower, &word) {
                FormatKind::AdguardHome
            } else {
                FormatKind::Plain
            }
        },
        None => FormatKind::Plain,
    }
}

} // verus!
