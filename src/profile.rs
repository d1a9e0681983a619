//! Editing `export KEY="value"` lines of a shell start-up file, which is how
//! the models directory is made visible to the service on Unix systems. The
//! application reads and writes the files; the text is rewritten here.
use vstd::prelude::*;
use crate::config::{has_prefix, has_prefix_exec, trim_str, trimmed};

verus! {

/// Splits `s`, read after the unterminated text `cur`, at each `'\n'`: the
/// complete lines and the text after the last terminator.
pub open spec fn split_text(cur: Seq<char>, s: Seq<char>) -> (Seq<Seq<char>>, Seq<char>)
    decreases s.len(),
{
    if s.len() == 0 {
        (Seq::empty(), cur)
    } else if s[0] == '\n' {
        let rest = split_text(Seq::empty(), s.drop_first());
        (seq![cur] + rest.0, rest.1)
    } else {
        split_text(cur.push(s[0]), s.drop_first())
    }
}

/// A line without the `'\r'` of a `"\r\n"` ending.
pub open spec fn strip_cr(l: Seq<char>) -> Seq<char> {
    if l.len() > 0 && l.last() == '\r' {
        l.drop_last()
    } else {
        l
    }
}

/// The lines of a text: split at line feeds, a carriage return before a line
/// feed dropped, and no empty line after a final terminator.
pub open spec fn text_lines(s: Seq<char>) -> Seq<Seq<char>> {
    let parts = split_text(Seq::empty(), s);
    let all = if parts.1.len() > 0 {
        parts.0.push(parts.1)
    } else {
        parts.0
    };
    all.map_values(|l: Seq<char>| strip_cr(l))
}

/// The lines joined with `'\n'` between them.
pub open spec fn join_lines(ls: Seq<Seq<char>>) -> Seq<char>
    decreases ls.len(),
{
    if ls.len() == 0 {
        Seq::empty()
    } else if ls.len() == 1 {
        ls[0]
    } else {
        join_lines(ls.drop_last()) + seq!['\n'] + ls.last()
    }
}

/// The text of a file holding these lines: joined with `'\n'`, and one
/// `'\n'` at the end.
pub open spec fn file_text(ls: Seq<Seq<char>>) -> Seq<char> {
    join_lines(ls) + seq!['\n']
}

/// The beginning of a line that sets `key`.
pub open spec fn export_prefix(key: Seq<char>) -> Seq<char> {
    "export "@ + key + "="@
}

/// The line that sets `key` to `value`.
pub open spec fn export_line(key: Seq<char>, value: Seq<char>) -> Seq<char> {
    "export "@ + key + "=\""@ + value + "\""@
}

/// Whether a line sets `key`, leading white space aside.
pub open spec fn sets_key(line: Seq<char>, key: Seq<char>) -> bool {
    has_prefix(trimmed(line), export_prefix(key))
}

/// The lines with each line that sets `key` replaced by `line`, and `line`
/// added at the end when none did.
pub open spec fn upserted(ls: Seq<Seq<char>>, key: Seq<char>, line: Seq<char>) -> Seq<Seq<char>> {
    let replaced = ls.map_values(|l: Seq<char>| if sets_key(l, key) { line } else { l });
    if exists|i: int| 0 <= i < ls.len() && sets_key(#[trigger] ls[i], key) {
        replaced
    } else {
        replaced.push(line)
    }
}

/// The lines that do not set `key`.
pub open spec fn without_key(ls: Seq<Seq<char>>, key: Seq<char>) -> Seq<Seq<char>> {
    ls.filter(|l: Seq<char>| !sets_key(l, key))
}

/// Splits a text into its lines (see `text_lines`).
pub fn split_text_lines(s: &str) -> (r: Vec<String>)
    ensures
        r@.map_values(|l: String| l@) == text_lines(s@),
{
    let n = s.unicode_len();
    let mut parts: Vec<String> = Vec::new();
    let mut start: usize = 0;
    let mut i: usize = 0;
    proof {
        assert(s@.skip(0) =~= s@);
        assert(s@.subrange(0, 0) =~= Seq::<char>::empty());
        assert(Seq::<Seq<char>>::empty() + split_text(Seq::empty(), s@).0 =~= split_text(
            Seq::empty(),
            s@,
        ).0);
    }
    while i < n
        invariant
            n == s@.len(),
            start <= i <= n,
            split_text(Seq::empty(), s@) == (
                parts@.map_values(|l: String| l@) + split_text(
                    s@.subrange(start as int, i as int),
                    s@.skip(i as int),
                ).0,
                split_text(s@.subrange(start as int, i as int), s@.skip(i as int)).1,
            ),
        decreases n - i,
    {
        let c = s.get_char(i);
        let ghost cur = s@.subrange(start as int, i as int);
        proof {
            assert(s@.skip(i as int)[0] == c);
            assert(s@.skip(i as int).drop_first() =~= s@.skip(i + 1));
        }
        if c == '\n' {
            let ghost before = parts@.map_values(|l: String| l@);
            let line = s.substring_char(start, i).to_owned();
            parts.push(line);
            proof {
                let rest = split_text(Seq::empty(), s@.skip(i + 1));
                assert(parts@.map_values(|l: String| l@) =~= before.push(cur));
                assert(before + (seq![cur] + rest.0) =~= before.push(cur) + rest.0);
                assert(s@.subrange(i + 1, i + 1) =~= Seq::<char>::empty());
            }
            start = i + 1;
        } else {
            proof {
                assert(cur.push(c) =~= s@.subrange(start as int, i + 1));
            }
        }
        i = i + 1;
    }
    proof {
        assert(s@.skip(n as int) =~= Seq::<char>::empty());
        assert(parts@.map_values(|l: String| l@) + Seq::<Seq<char>>::empty() =~= parts@.map_values(
            |l: String| l@,
        ));
    }
    if start < n {
        let ghost before = parts@.map_values(|l: String| l@);
        let last = s.substring_char(start, n).to_owned();
        parts.push(last);
        proof {
            assert(parts@.map_values(|l: String| l@) =~= before.push(s@.subrange(start as int, n as int)));
        }
    }
    let ghost all = parts@.map_values(|l: String| l@);
    let mut out: Vec<String> = Vec::new();
    let mut j: usize = 0;
    while j < parts.len()
        invariant
            j <= parts@.len(),
            all == parts@.map_values(|l: String| l@),
            out@.map_values(|l: String| l@) == all.take(j as int).map_values(
                |l: Seq<char>| strip_cr(l),
            ),
        decreases parts@.len() - j,
    {
        let p = parts[j].as_str();
        let m = p.unicode_len();
        let ghost before = out@.map_values(|l: String| l@);
        let line = if m > 0 && p.get_char(m - 1) == '\r' {
            p.substring_char(0, m - 1).to_owned()
        } else {
            p.to_owned()
        };
        out.push(line);
        proof {
            assert(p@ == all[j as int]);
            if m > 0 {
                assert(p@.drop_last() =~= p@.subrange(0, m - 1));
            }
            assert(out@.map_values(|l: String| l@) =~= before.push(strip_cr(all[j as int])));
            assert(all.take(j + 1) =~= all.take(j as int).push(all[j as int]));
            assert(all.take(j + 1).map_values(|l: Seq<char>| strip_cr(l)) =~= all.take(
                j as int,
            ).map_values(|l: Seq<char>| strip_cr(l)).push(strip_cr(all[j as int])));
        }
        j = j + 1;
    }
    proof {
        assert(all.take(j as int) =~= all);
    }
    out
}

/// Joins lines with `'\n'` and ends the text with one more `'\n'`.
pub fn join_file_text(ls: &Vec<String>) -> (r: String)
    ensures
        r@ == file_text(ls@.map_values(|l: String| l@)),
{
    let ghost all = ls@.map_values(|l: String| l@);
    let mut out = String::new();
    let mut i: usize = 0;
    proof {
        assert(all.take(0) =~= Seq::<Seq<char>>::empty());
    }
    while i < ls.len()
        invariant
            i <= ls@.len(),
            all == ls@.map_values(|l: String| l@),
            out@ == join_lines(all.take(i as int)),
        decreases ls@.len() - i,
    {
        proof {
            assert(all.take(i + 1).drop_last() =~= all.take(i as int));
            assert(all.take(i + 1).last() == all[i as int]);
        }
        if i > 0 {
            out.append("\n");
        }
        out.append(ls[i].as_str());
        proof {
            if i == 0 {
                assert(all.take(1) =~= seq![all[0]]);
                assert(out@ =~= all[0]);
            } else {
                reveal_strlit("\n");
                assert(out@ =~= join_lines(all.take(i as int)) + seq!['\n'] + all[i as int]);
            }
        }
        i = i + 1;
    }
    proof {
        assert(all.take(i as int) =~= all);
    }
    out.append("\n");
    proof {
        reveal_strlit("\n");
        assert(out@ =~= join_lines(all) + seq!['\n']);
    }
    out
}

/// The start-up file text with `key` set to `value`: each line that sets `key`
/// is replaced by `export KEY="value"`, which is added at the end when no line
/// did. For a file that does not exist, pass the empty text.
pub fn upsert_export(content: &str, key: &str, value: &str) -> (r: String)
    ensures
        r@ == file_text(upserted(text_lines(content@), key@, export_line(key@, value@))),
{
    let prefix = "export ".to_owned().concat(key).concat("=");
    let env_line = "export ".to_owned().concat(key).concat("=\"").concat(value).concat("\"");
    let lines = split_text_lines(content);
    let ghost ls = text_lines(content@);
    let ghost el = env_line@;
    let mut out: Vec<String> = Vec::new();
    let mut found = false;
    let mut i: usize = 0;
    while i < lines.len()
        invariant
            i <= lines@.len(),
            lines@.map_values(|l: String| l@) == ls,
            prefix@ == export_prefix(key@),
            env_line@ == el,
            el == export_line(key@, value@),
            out@.map_values(|l: String| l@) == ls.take(i as int).map_values(
                |l: Seq<char>| if sets_key(l, key@) { el } else { l },
            ),
            found == exists|j: int| 0 <= j < i && sets_key(#[trigger] ls[j], key@),
        decreases lines@.len() - i,
    {
        let line = &lines[i];
        let hit = has_prefix_exec(trim_str(line.as_str()), prefix.as_str());
        let ghost before = out@.map_values(|l: String| l@);
        proof {
            assert(line@ == ls[i as int]);
        }
        if hit {
            out.push(env_line.clone());
            found = true;
        } else {
            out.push(line.clone());
        }
        proof {
            let f = |l: Seq<char>| if sets_key(l, key@) { el } else { l };
            assert(ls.take(i + 1) =~= ls.take(i as int).push(ls[i as int]));
            assert(ls.take(i + 1).map_values(f) =~= ls.take(i as int).map_values(f).push(
                f(ls[i as int]),
            ));
            assert(out@.map_values(|l: String| l@) =~= before.push(f(ls[i as int])));
        }
        i = i + 1;
    }
    proof {
        assert(ls.take(i as int) =~= ls);
    }
    if !found {
        let ghost before = out@.map_values(|l: String| l@);
        out.push(env_line);
        proof {
            assert(out@.map_values(|l: String| l@) =~= before.push(el));
        }
    }
    proof {
        assert(out@.map_values(|l: String| l@) =~= upserted(ls, key@, el));
    }
    join_file_text(&out)
}

/// The start-up file text with every line that sets `key` removed.
pub fn remove_export(content: &str, key: &str) -> (r: String)
    ensures
        r@ == file_text(without_key(text_lines(content@), key@)),
{
    let prefix = "export ".to_owned().concat(key).concat("=");
    let lines = split_text_lines(content);
    let ghost ls = text_lines(content@);
    let mut out: Vec<String> = Vec::new();
    let mut i: usize = 0;
    proof {
        assert(ls.take(0) =~= Seq::<Seq<char>>::empty());
        reveal(Seq::filter);
        assert(without_key(ls.take(0), key@) =~= Seq::<Seq<char>>::empty());
    }
    while i < lines.len()
        invariant
            i <= lines@.len(),
            lines@.map_values(|l: String| l@) == ls,
            prefix@ == export_prefix(key@),
            out@.map_values(|l: String| l@) == without_key(ls.take(i as int), key@),
        decreases lines@.len() - i,
    {
        let line = &lines[i];
        let hit = has_prefix_exec(trim_str(line.as_str()), prefix.as_str());
        let ghost before = out@.map_values(|l: String| l@);
        proof {
            assert(line@ == ls[i as int]);
            assert(ls.take(i + 1) =~= ls.take(i as int).push(ls[i as int]));
            assert(ls.take(i + 1).drop_last() =~= ls.take(i as int));
            reveal(Seq::filter);
        }
        if !hit {
            out.push(line.clone());
            proof {
                assert(out@.map_values(|l: String| l@) =~= before.push(ls[i as int]));
            }
        }
        i = i + 1;
    }
    proof {
        assert(ls.take(i as int) =~= ls);
    }
    join_file_text(&out)
}

} // verus!
