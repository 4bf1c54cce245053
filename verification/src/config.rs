//! The files the tool reads under the home directory, and the `key = value`
//! configuration text that names the SSH key.
use vstd::prelude::*;

use crate::text::{
    find_char, first_index_of, join2, last_index_of, lemma_index_of_bounds, same_text, trim,
    trim_seq,
};

verus! {

/// The lines of `s`: the pieces between its newline characters.
pub open spec fn text_lines(s: Seq<char>) -> Seq<Seq<char>>
    decreases s.len(),
{
    let k = last_index_of(s, '\n');
    if k < 0 {
        seq![s]
    } else {
        proof {
            lemma_index_of_bounds(s, '\n');
        }
        text_lines(s.take(k)).push(s.skip(k + 1))
    }
}

/// The setting a line makes: the trimmed text before its first `=` and the
/// trimmed text after it, or `None` for a line without `=`.
pub open spec fn line_setting(line: Seq<char>) -> Option<(Seq<char>, Seq<char>)> {
    let k = first_index_of(line, '=');
    if k < 0 {
        None
    } else {
        Some((trim_seq(line.take(k)), trim_seq(line.skip(k + 1))))
    }
}

/// Whether `line` sets the key `key`.
pub open spec fn sets_key(line: Seq<char>, key: Seq<char>) -> bool {
    line_setting(line) matches Some((k, _)) && k == key
}

/// The value of `key` in `lines`: that of the last line that sets it, or the
/// empty text when none does.
pub open spec fn key_value(lines: Seq<Seq<char>>, key: Seq<char>) -> Seq<char>
    decreases lines.len(),
{
    if lines.len() == 0 {
        Seq::empty()
    } else if sets_key(lines.last(), key) {
        line_setting(lines.last())->Some_0.1
    } else {
        key_value(lines.drop_last(), key)
    }
}

/// The SSH key path that the configuration text `config` names.
pub open spec fn ssh_key_setting(config: Seq<char>) -> Seq<char> {
    key_value(text_lines(config), "ssh_key"@)
}

/// The setting that `line` makes, as `line_setting` states it.
pub fn parse_setting(line: &str) -> (r: Option<(String, String)>)
    ensures
        r is None <==> line_setting(line@) is None,
        r matches Some((k, v)) ==> line_setting(line@) == Some((k@, v@)),
{
    match find_char(line, '=') {
        None => None,
        Some(k) => {
            proof {
                lemma_index_of_bounds(line@, '=');
            }
            let n: usize = line.unicode_len();
            let before: &str = line.substring_char(0, k);
            let after: &str = line.substring_char(k + 1, n);
            assert(before@ =~= line@.take(k as int));
            assert(after@ =~= line@.skip(k + 1));
            Some((trim(before), trim(after)))
        },
    }
}

/// The SSH key path named by the configuration text `config`: the value of
/// the last line whose key, before the first `=`, is `ssh_key`, both sides
/// trimmed of white space; the empty text when no line sets it.
pub fn ssh_key_from_config(config: &str) -> (r: String)
    ensures
        r@ == ssh_key_setting(config@),
{
    let n: usize = config.unicode_len();
    let mut end: usize = n;
    assert(config@.take(n as int) =~= config@);
    loop
        invariant
            end <= n,
            n == config@.len(),
            ssh_key_setting(config@) == key_value(text_lines(config@.take(end as int)), "ssh_key"@),
        decreases end,
    {
        let ghost part = config@.take(end as int);
        let mut k: usize = end;
        assert(part.take(k as int) =~= part);
        while k > 0 && config.get_char(k - 1) != '\n'
            invariant
                k <= end,
                end <= n,
                n == config@.len(),
                part == config@.take(end as int),
                last_index_of(part, '\n') == last_index_of(part.take(k as int), '\n'),
            decreases k,
        {
            assert(part.take(k as int).drop_last() =~= part.take(k - 1));
            k = k - 1;
        }
        let line: &str = config.substring_char(k, end);
        proof {
            if k > 0 {
                assert(part.take(k as int).last() == '\n');
                assert(last_index_of(part, '\n') == k - 1);
                assert(part.take(k - 1) =~= config@.take(k - 1));
                assert(part.skip(k as int) =~= line@);
            } else {
                assert(last_index_of(part.take(0), '\n') == -1);
                assert(line@ =~= part);
            }
            assert(text_lines(part).last() == line@);
        }
        let setting = parse_setting(line);
        match setting {
            Some((key, value)) => {
                if same_text(key.as_str(), "ssh_key") {
                    return value;
                }
            },
            None => {},
        }
        if k == 0 {
            proof {
                assert(text_lines(part) == seq![part]);
                assert(!sets_key(line@, "ssh_key"@));
                assert(seq![part].drop_last() =~= Seq::<Seq<char>>::empty());
                assert(key_value(Seq::<Seq<char>>::empty(), "ssh_key"@) == Seq::<char>::empty());
                assert(key_value(seq![part], "ssh_key"@) == Seq::<char>::empty());
            }
            return String::new();
        }
        assert(text_lines(part).drop_last() =~= text_lines(config@.take(k - 1)));
        end = k - 1;
    }
}

/// Appending a line whose trimmed text before its first `=` is `ssh_key` to
/// any configuration text makes that line's value the configured key,
/// whatever came before it.
pub proof fn lemma_appended_key_line_wins(config: Seq<char>, line: Seq<char>)
    requires
        forall|i: int| 0 <= i < line.len() ==> line[i] != '\n',
        line_setting(line) is Some,
        line_setting(line)->Some_0.0 == "ssh_key"@,
    ensures
        ssh_key_setting(config + seq!['\n'] + line) == line_setting(line)->Some_0.1,
{
    let s = config + seq!['\n'] + line;
    lemma_last_newline_of_append(config, line);
    assert(s.take(config.len() as int) =~= config);
    assert(s.skip(config.len() as int + 1) =~= line);
    assert(text_lines(s) == text_lines(config).push(line));
    assert(text_lines(s).last() == line);
}

/// Appending a line without `=`, or whose trimmed text before the first `=`
/// is anything but `ssh_key` (such as `# ssh_key` or `my_ssh_key`), leaves the configured key as
/// it was.
pub proof fn lemma_appended_other_line_keeps(config: Seq<char>, line: Seq<char>)
    requires
        forall|i: int| 0 <= i < line.len() ==> line[i] != '\n',
        line_setting(line) is None || line_setting(line)->Some_0.0 != "ssh_key"@,
    ensures
        ssh_key_setting(config + seq!['\n'] + line) == ssh_key_setting(config),
{
    let s = config + seq!['\n'] + line;
    lemma_last_newline_of_append(config, line);
    assert(s.take(config.len() as int) =~= config);
    assert(s.skip(config.len() as int + 1) =~= line);
    assert(text_lines(s) == text_lines(config).push(line));
    assert(text_lines(s).drop_last() =~= text_lines(config));
}

/// In `config`, a newline and a line without newlines, the last newline is the
/// one that was appended.
proof fn lemma_last_newline_of_append(config: Seq<char>, line: Seq<char>)
    requires
        forall|i: int| 0 <= i < line.len() ==> line[i] != '\n',
    ensures
        last_index_of(config + seq!['\n'] + line, '\n') == config.len(),
    decreases line.len(),
{
    let s = config + seq!['\n'] + line;
    if line.len() == 0 {
        assert(s.last() == '\n');
    } else {
        assert(s.last() == line.last());
        assert(s.drop_last() =~= config + seq!['\n'] + line.drop_last());
        lemma_last_newline_of_append(config, line.drop_last());
    }
}

/// `home` followed by the path of the configuration file under it.
pub fn config_path(home: &str) -> (r: String)
    ensures
        r@ == home@ + "/.config/blkc/blkc.conf"@,
{
    join2(home, "/.config/blkc/blkc.conf")
}

/// `home` followed by the path of the server list under it.
pub fn list_path(home: &str) -> (r: String)
    ensures
        r@ == home@ + "/.config/blkc/list.json"@,
{
    join2(home, "/.config/blkc/list.json")
}

/// The public key file that belongs to the private key at `key_path`.
pub fn public_key_path(key_path: &str) -> (r: String)
    ensures
        r@ == key_path@ + ".pub"@,
{
    join2(key_path, ".pub")
}


/// A line makes a setting exactly when it holds `=`; the key is the trimmed
/// text before the first `=` and the value the trimmed text after it, so a
/// value may itself hold `=`.
pub proof fn lemma_setting_splits_at_first_equals(line: Seq<char>)
    ensures
        line_setting(line) is None <==> forall|j: int| 0 <= j < line.len() ==> line[j] != '=',
        line_setting(line) is Some ==> exists|p: int|
            0 <= p < line.len() && line[p] == '=' && (forall|j: int|
                0 <= j < p ==> line[j] != '=') && line_setting(line)->Some_0.0 == trim_seq(
                line.take(p),
            ) && line_setting(line)->Some_0.1 == trim_seq(line.skip(p + 1)),
{
    lemma_index_of_bounds(line, '=');
    let p = first_index_of(line, '=');
    if p >= 0 {
        assert(line[p] == '=');
    }
}

/// Lines joined again with a newline between each two.
pub open spec fn joined_lines(lines: Seq<Seq<char>>) -> Seq<char>
    decreases lines.len(),
{
    if lines.len() <= 1 {
        if lines.len() == 1 {
            lines[0]
        } else {
            Seq::empty()
        }
    } else {
        joined_lines(lines.drop_last()) + seq!['\n'] + lines.last()
    }
}

/// The lines of a text hold no newline, there is at least one, and joining
/// them with newlines gives the text back.
pub proof fn lemma_lines_rebuild_the_text(s: Seq<char>)
    ensures
        text_lines(s).len() >= 1,
        joined_lines(text_lines(s)) == s,
        forall|i: int, j: int|
            0 <= i < text_lines(s).len() && 0 <= j < text_lines(s)[i].len() ==> text_lines(
                s,
            )[i][j] != '\n',
    decreases s.len(),
{
    lemma_index_of_bounds(s, '\n');
    let k = last_index_of(s, '\n');
    if k < 0 {
        assert(text_lines(s) == seq![s]);
    } else {
        let front = s.take(k);
        let back = s.skip(k + 1);
        lemma_lines_rebuild_the_text(front);
        let lines = text_lines(s);
        assert(lines == text_lines(front).push(back));
        assert(lines.drop_last() =~= text_lines(front));
        assert(joined_lines(lines) == joined_lines(text_lines(front)) + seq!['\n'] + back);
        assert(front + seq!['\n'] + back =~= s);
        assert forall|i: int, j: int|
            0 <= i < lines.len() && 0 <= j < lines[i].len() implies lines[i][j] != '\n' by {
            if i == lines.len() - 1 {
                assert(lines[i] == back);
                assert(back[j] == s[k + 1 + j]);
            } else {
                assert(lines[i] == text_lines(front)[i]);
            }
        }
    }
}

/// The value of a key is that of the last line whose setting has that key,
/// and the empty text when no line has it.
pub proof fn lemma_last_setting_wins(lines: Seq<Seq<char>>, key: Seq<char>)
    ensures
        (forall|i: int|
            0 <= i < lines.len() ==> !(line_setting(#[trigger] lines[i]) is Some
                && line_setting(lines[i])->Some_0.0 == key)) ==> key_value(lines, key)
            == Seq::<char>::empty(),
        forall|i: int|
            0 <= i < lines.len() && line_setting(#[trigger] lines[i]) is Some && line_setting(
                lines[i],
            )->Some_0.0 == key && (forall|j: int|
                i < j < lines.len() ==> !(line_setting(#[trigger] lines[j]) is Some
                    && line_setting(lines[j])->Some_0.0 == key)) ==> key_value(lines, key)
                == line_setting(lines[i])->Some_0.1,
    decreases lines.len(),
{
    if lines.len() > 0 {
        let rest = lines.drop_last();
        lemma_last_setting_wins(rest, key);
        let l = lines.len() - 1;
        assert(lines.last() == lines[l]);
        if (forall|i: int|
            0 <= i < lines.len() ==> !(line_setting(#[trigger] lines[i]) is Some
                && line_setting(lines[i])->Some_0.0 == key)) {
            assert(!(line_setting(lines[l]) is Some && line_setting(lines[l])->Some_0.0 == key));
            assert forall|i: int|
                0 <= i < rest.len() implies !(line_setting(#[trigger] rest[i]) is Some
                && line_setting(rest[i])->Some_0.0 == key) by {
                assert(rest[i] == lines[i]);
            }
        }
        assert forall|i: int|
            0 <= i < lines.len() && line_setting(#[trigger] lines[i]) is Some && line_setting(
                lines[i],
            )->Some_0.0 == key && (forall|j: int|
                i < j < lines.len() ==> !(line_setting(#[trigger] lines[j]) is Some
                    && line_setting(lines[j])->Some_0.0 == key)) implies key_value(lines, key)
            == line_setting(lines[i])->Some_0.1 by {
            if i < l {
                assert(!(line_setting(lines[l]) is Some && line_setting(lines[l])->Some_0.0 == key));
                assert(rest[i] == lines[i]);
                assert forall|j: int| i < j < rest.len() implies !(line_setting(
                    #[trigger] rest[j],
                ) is Some && line_setting(rest[j])->Some_0.0 == key) by {
                    assert(rest[j] == lines[j]);
                }
            }
        }
    }
}

} // verus!
