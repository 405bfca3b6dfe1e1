//! Following the X display across session restarts: which of `DISPLAY` and `XAUTHORITY`
//! the systemd user environment changes.

use vstd::prelude::*;
use crate::text::{split_on, split_str, str_chars, str_ends_with, str_eq, str_starts_with, str_to_string, substring, views_of};

verus! {

/// A line without one trailing carriage return.
pub open spec fn without_cr(l: Seq<char>) -> Seq<char> {
    if l.len() > 0 && l.last() == '\r' { l.drop_last() } else { l }
}

/// The lines of a text, as `str::lines` gives them: split at `\n`, each line that a `\n`
/// ends losing one trailing `\r`, and no empty last line after a final `\n`.
pub open spec fn text_lines(s: Seq<char>) -> Seq<Seq<char>> {
    let p = split_on(s, '\n');
    let ended = p.drop_last().map_values(|l: Seq<char>| without_cr(l));
    if p.last().len() == 0 { ended } else { ended.push(p.last()) }
}

/// A variable to set: its name and new value.
pub type EnvUpdate = (String, String);

/// The updates the lines call for, going through them in order with `display` and
/// `xauthority` as the current values: each `DISPLAY=` or `XAUTHORITY=` line whose value
/// differs from the current one sets it.
pub open spec fn env_updates(lines: Seq<Seq<char>>, display: Seq<char>, xauthority: Seq<char>) -> Seq<(Seq<char>, Seq<char>)>
    decreases lines.len(),
{
    if lines.len() == 0 {
        Seq::empty()
    } else {
        let l = lines[0];
        let rest = lines.drop_first();
        if "DISPLAY="@.is_prefix_of(l) {
            let v = l.skip(8);
            if v != display {
                seq![("DISPLAY"@, v)] + env_updates(rest, v, xauthority)
            } else {
                env_updates(rest, display, xauthority)
            }
        } else if "XAUTHORITY="@.is_prefix_of(l) {
            let v = l.skip(11);
            if v != xauthority {
                seq![("XAUTHORITY"@, v)] + env_updates(rest, display, v)
            } else {
                env_updates(rest, display, xauthority)
            }
        } else {
            env_updates(rest, display, xauthority)
        }
    }
}

/// The characters of each update.
pub open spec fn update_views(v: Seq<EnvUpdate>) -> Seq<(Seq<char>, Seq<char>)> {
    v.map_values(|u: EnvUpdate| (u.0@, u.1@))
}

/// The lines of a text (`str::lines`).
pub fn lines_of(s: &str) -> (r: Vec<String>)
    ensures
        views_of(r@) == text_lines(s@),
{
    let pieces = split_str(s, '\n');
    let ghost p = views_of(pieces@);
    let n = pieces.len();
    let mut out: Vec<String> = Vec::new();
    let mut i: usize = 0;
    proof {
        assert(p.len() >= 1) by {
            crate::text::lemma_first_index_of(s@, '\n');
        }
    }
    while i + 1 < n
        invariant
            n == pieces@.len(),
            n >= 1,
            p == views_of(pieces@),
            p == split_on(s@, '\n'),
            i + 1 <= n,
            views_of(out@) == p.take(i as int).map_values(|l: Seq<char>| without_cr(l)),
        decreases n - i,
    {
        let ghost before = out@;
        let l = pieces[i].as_str();
        proof {
            reveal_strlit("\r");
            assert("\r"@ =~= seq!['\r']);
        }
        let line = if str_ends_with(l, "\r") {
            let v = str_chars(l);
            let r = substring(v.as_slice(), 0, v.len() - 1);
            proof {
                assert(l@.subrange(l@.len() - 1, l@.len() as int) == "\r"@);
                assert(l@.subrange(l@.len() - 1, l@.len() as int)[0] == l@.last());
                assert(l@.last() == '\r');
                assert(r@ =~= l@.drop_last());
            }
            r
        } else {
            let r = str_to_string(l);
            proof {
                if l@.len() > 0 && l@.last() == '\r' {
                    assert(l@.subrange(l@.len() - 1, l@.len() as int) =~= "\r"@);
                }
            }
            r
        };
        out.push(line);
        proof {
            assert(p[i as int] == l@);
            assert(line@ == without_cr(l@));
            assert(p.take(i + 1).map_values(|l: Seq<char>| without_cr(l)) =~= p.take(i as int).map_values(|l: Seq<char>| without_cr(l)).push(without_cr(l@)));
            assert(views_of(out@) =~= p.take(i + 1).map_values(|l: Seq<char>| without_cr(l)));
        }
        i = i + 1;
    }
    let last = pieces[n - 1].as_str();
    proof {
        assert(p.take(n - 1) =~= p.drop_last());
        assert(p.last() == last@);
    }
    if !last.is_empty() {
        let ghost before = out@;
        out.push(str_to_string(last));
        proof {
            assert(views_of(out@) =~= views_of(before).push(last@));
        }
    }
    out
}

/// The variables to set from the output of `systemctl --user show-environment`, given
/// the current `DISPLAY` and `XAUTHORITY`
pub fn display_env_updates(output: &str, display: &str, xauthority: &str) -> (r: Vec<EnvUpdate>)
    ensures
        update_views(r@) == env_updates(text_lines(output@), display@, xauthority@),
{
    let lines = lines_of(output);
    let mut cur_display = str_to_string(display);
    let mut cur_xauth = str_to_string(xauthority);
    let mut out: Vec<EnvUpdate> = Vec::new();
    let mut i: usize = 0;
    proof {
        assert(views_of(lines@).skip(0) =~= views_of(lines@));
        assert(update_views(out@) + env_updates(views_of(lines@).skip(0), cur_display@, cur_xauth@) =~= env_updates(views_of(lines@), display@, xauthority@));
    }
    while i < lines.len()
        invariant
            i <= lines@.len(),
            views_of(lines@) == text_lines(output@),
            update_views(out@) + env_updates(views_of(lines@).skip(i as int), cur_display@, cur_xauth@)
                == env_updates(text_lines(output@), display@, xauthority@),
        decreases lines.len() - i,
    {
        let ghost before = out@;
        let ghost d0 = cur_display@;
        let ghost x0 = cur_xauth@;
        proof {
            reveal_strlit("DISPLAY=");
            reveal_strlit("XAUTHORITY=");
            reveal_strlit("DISPLAY");
            reveal_strlit("XAUTHORITY");
            assert("DISPLAY="@.len() == 8);
            assert("XAUTHORITY="@.len() == 11);
        }
        let l = lines[i].as_str();
        let ghost ls = views_of(lines@).skip(i as int);
        proof {
            assert(ls[0] == l@);
            assert(ls.drop_first() =~= views_of(lines@).skip(i + 1));
        }
        if str_starts_with(l, "DISPLAY=") {
            let v = str_chars(l);
            let val = substring(v.as_slice(), 8, v.len());
            proof {
                assert(val@ =~= l@.skip(8));
            }
            if !str_eq(val.as_str(), cur_display.as_str()) {
                cur_display = str_to_string(val.as_str());
                out.push((str_to_string("DISPLAY"), val));
                proof {
                    assert(update_views(out@) =~= update_views(before) + seq![("DISPLAY"@, l@.skip(8))]);
                }
            }
        } else if str_starts_with(l, "XAUTHORITY=") {
            let v = str_chars(l);
            let val = substring(v.as_slice(), 11, v.len());
            proof {
                assert(val@ =~= l@.skip(11));
            }
            if !str_eq(val.as_str(), cur_xauth.as_str()) {
                cur_xauth = str_to_string(val.as_str());
                out.push((str_to_string("XAUTHORITY"), val));
                proof {
                    assert(update_views(out@) =~= update_views(before) + seq![("XAUTHORITY"@, l@.skip(11))]);
                }
            }
        }
        proof {
            assert(update_views(out@) + env_updates(views_of(lines@).skip(i + 1), cur_display@, cur_xauth@)
                =~= update_views(before) + env_updates(ls, d0, x0));
        }
        i = i + 1;
    }
    proof {
        assert(views_of(lines@).skip(lines@.len() as int) =~= Seq::<Seq<char>>::empty());
        assert(update_views(out@) + Seq::<(Seq<char>, Seq<char>)>::empty() =~= update_views(out@));
    }
    out
}

} // verus!
