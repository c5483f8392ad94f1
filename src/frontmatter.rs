//! The front matter of a Markdown file: `key: value` lines between a leading `---` and
//! the next line that starts with `---`, read line by line rather than as YAML.

use vstd::prelude::*;
use crate::config_doc::{split_document, split_lines};
use crate::model::texts;
use crate::text::{
    chars_of, has_prefix, matches_at, occurs_at, same_chars, starts_with_chars, string_of, trim_text, trimmed,
};

verus! {

/// The first index from `i` on where `pat` occurs in `s`.
pub open spec fn first_from(s: Seq<char>, pat: Seq<char>, i: int) -> Option<int>
    decreases s.len() + 1 - i,
{
    if i < 0 || i > s.len() {
        None
    } else if occurs_at(s, pat, i) {
        Some(i)
    } else {
        first_from(s, pat, i + 1)
    }
}

fn find_from(s: &Vec<char>, pat: &Vec<char>, from: usize) -> (r: Option<usize>)
    ensures
        match r {
            Some(i) => first_from(s@, pat@, from as int) == Some(i as int) && i <= s@.len() && occurs_at(
                s@,
                pat@,
                i as int,
            ),
            None => first_from(s@, pat@, from as int) is None,
        },
{
    if from > s.len() {
        return None;
    }
    let mut i: usize = from;
    while i < s.len()
        invariant
            from <= i <= s@.len(),
            first_from(s@, pat@, from as int) == first_from(s@, pat@, i as int),
        decreases s@.len() - i,
    {
        if matches_at(s.as_slice(), pat.as_slice(), i) {
            return Some(i);
        }
        i = i + 1;
    }
    if matches_at(s.as_slice(), pat.as_slice(), i) {
        return Some(i);
    }
    proof {
        assert(first_from(s@, pat@, i + 1) is None);
    }
    None
}

/// `s` without the characters `q` at its start.
pub open spec fn strip_leading(s: Seq<char>, q: char) -> Seq<char>
    decreases s.len(),
{
    if s.len() > 0 && s[0] == q {
        strip_leading(s.drop_first(), q)
    } else {
        s
    }
}

/// `s` without the characters `q` at its end.
pub open spec fn strip_trailing(s: Seq<char>, q: char) -> Seq<char>
    decreases s.len(),
{
    if s.len() > 0 && s.last() == q {
        strip_trailing(s.drop_last(), q)
    } else {
        s
    }
}

/// `s` without the characters `q` at either end, as `str::trim_matches` with one character.
pub open spec fn strip_both(s: Seq<char>, q: char) -> Seq<char> {
    strip_trailing(strip_leading(s, q), q)
}

fn strip_char(s: &Vec<char>, q: char) -> (r: Vec<char>)
    ensures
        r@ == strip_both(s@, q),
{
    let mut a: usize = 0;
    proof {
        assert(s@.skip(0) =~= s@);
    }
    while a < s.len() && s[a] == q
        invariant
            a <= s@.len(),
            strip_leading(s@, q) == strip_leading(s@.skip(a as int), q),
        decreases s@.len() - a,
    {
        proof {
            assert(s@.skip(a as int).drop_first() =~= s@.skip(a + 1));
        }
        a = a + 1;
    }
    let mut b: usize = s.len();
    proof {
        assert(s@.skip(a as int) =~= s@.subrange(a as int, b as int));
    }
    while b > a && s[b - 1] == q
        invariant
            a <= b <= s@.len(),
            strip_leading(s@, q) == s@.subrange(a as int, s@.len() as int),
            strip_both(s@, q) == strip_trailing(s@.subrange(a as int, b as int), q),
        decreases b,
    {
        proof {
            assert(s@.subrange(a as int, b as int).drop_last() =~= s@.subrange(a as int, b - 1));
        }
        b = b - 1;
    }
    let mut out: Vec<char> = Vec::new();
    let mut k: usize = a;
    while k < b
        invariant
            a <= k <= b <= s@.len(),
            out@ == s@.subrange(a as int, k as int),
        decreases b - k,
    {
        out.push(s[k]);
        k = k + 1;
        proof {
            assert(out@ =~= s@.subrange(a as int, k as int));
        }
    }
    out
}

/// The entry that a front-matter line gives: the key before the first colon and the value
/// after it, both trimmed, the value without surrounding double and then single quotes;
/// none for a line without a colon or with the multi-line markers `>` and `|` as value.
pub open spec fn line_entry(l: Seq<char>) -> Option<(Seq<char>, Seq<char>)> {
    match first_from(l, seq![':'], 0) {
        None => None,
        Some(c) => {
            let key = trimmed(l.take(c));
            let value = strip_both(strip_both(trimmed(l.skip(c + 1)), '"'), '\'');
            if value == seq!['>'] || value == seq!['|'] {
                None
            } else {
                Some((key, value))
            }
        },
    }
}

/// The entries of front-matter lines, in order.
pub open spec fn line_entries(ls: Seq<Seq<char>>) -> Seq<(Seq<char>, Seq<char>)>
    decreases ls.len(),
{
    if ls.len() == 0 {
        Seq::empty()
    } else {
        let rest = line_entries(ls.drop_last());
        match line_entry(ls.last()) {
            Some(e) => rest.push(e),
            None => rest,
        }
    }
}

/// The front matter of a document: the trimmed document must start with `---`; the block
/// runs to the next `\n---`; its trimmed lines give the entries. None without such a block
/// or without any entry.
pub open spec fn front_matter_of(content: Seq<char>) -> Option<Seq<(Seq<char>, Seq<char>)>> {
    let c = trimmed(content);
    if !has_prefix(c, seq!['-', '-', '-']) {
        None
    } else {
        let rest = c.skip(3);
        match first_from(rest, seq!['\n', '-', '-', '-'], 0) {
            None => None,
            Some(e) => {
                let es = line_entries(split_lines(trimmed(rest.take(e))));
                if es.len() == 0 {
                    None
                } else {
                    Some(es)
                }
            },
        }
    }
}

/// The key/value entries of a front-matter block, in the order written.
pub struct FrontMatter {
    pub entries: Vec<(String, String)>,
}

/// The views of the entries.
pub open spec fn entries_of(v: Seq<(String, String)>) -> Seq<(Seq<char>, Seq<char>)> {
    v.map_values(|e: (String, String)| (e.0@, e.1@))
}

fn copy_between(s: &Vec<char>, a: usize, b: usize) -> (r: Vec<char>)
    requires
        a <= b <= s@.len(),
    ensures
        r@ == s@.subrange(a as int, b as int),
{
    let mut out: Vec<char> = Vec::new();
    let mut k: usize = a;
    while k < b
        invariant
            a <= k <= b <= s@.len(),
            out@ == s@.subrange(a as int, k as int),
        decreases b - k,
    {
        out.push(s[k]);
        k = k + 1;
        proof {
            assert(out@ =~= s@.subrange(a as int, k as int));
        }
    }
    out
}

fn entry_of_line(line: &String) -> (r: Option<(String, String)>)
    ensures
        match r {
            Some(e) => line_entry(line@) == Some((e.0@, e.1@)),
            None => line_entry(line@) is None,
        },
{
    let l = chars_of(line.as_str());
    let colon: Vec<char> = vec![':'];
    proof {
        assert(colon@ =~= seq![':']);
    }
    let c = match find_from(&l, &colon, 0) {
        Some(c) => c,
        None => return None,
    };
    if c >= l.len() {
        proof {
            assert(!occurs_at(l@, seq![':'], c as int));
        }
        return None;
    }
    let key_text = string_of(copy_between(&l, 0, c).as_slice());
    let value_text = string_of(copy_between(&l, c + 1, l.len()).as_slice());
    proof {
        assert(l@.subrange(0, c as int) =~= l@.take(c as int));
        assert(l@.subrange(c + 1, l@.len() as int) =~= l@.skip(c + 1));
    }
    let key = trim_text(key_text.as_str()).to_owned();
    let v0 = chars_of(trim_text(value_text.as_str()));
    let v1 = strip_char(&v0, '"');
    let v2 = strip_char(&v1, '\'');
    let gt: Vec<char> = vec!['>'];
    let bar: Vec<char> = vec!['|'];
    proof {
        assert(gt@ =~= seq!['>']);
        assert(bar@ =~= seq!['|']);
    }
    if same_chars(v2.as_slice(), gt.as_slice()) || same_chars(v2.as_slice(), bar.as_slice()) {
        return None;
    }
    Some((key, string_of(v2.as_slice())))
}

/// Parses the front matter of a Markdown document: `key: value` lines between a leading
/// `---` and the next line starting with `---`. None when there is no such block or it
/// holds no entry.
pub fn parse_frontmatter(content: &str) -> (r: Option<FrontMatter>)
    ensures
        match r {
            Some(fm) => front_matter_of(content@) == Some(entries_of(fm.entries@)),
            None => front_matter_of(content@) is None,
        },
{
    let c = chars_of(trim_text(content));
    let dashes: Vec<char> = vec!['-', '-', '-'];
    proof {
        assert(dashes@ =~= seq!['-', '-', '-']);
    }
    if !starts_with_chars(c.as_slice(), dashes.as_slice()) {
        return None;
    }
    let rest = copy_between(&c, 3, c.len());
    proof {
        assert(rest@ =~= c@.skip(3));
    }
    let close: Vec<char> = vec!['\n', '-', '-', '-'];
    proof {
        assert(close@ =~= seq!['\n', '-', '-', '-']);
    }
    let e = match find_from(&rest, &close, 0) {
        Some(e) => e,
        None => return None,
    };
    let block = string_of(copy_between(&rest, 0, e).as_slice());
    proof {
        assert(rest@.subrange(0, e as int) =~= rest@.take(e as int));
    }
    let lines = split_document(trim_text(block.as_str()));
    let ghost ls = texts(lines@);
    let mut entries: Vec<(String, String)> = Vec::new();
    let mut i: usize = 0;
    while i < lines.len()
        invariant
            i <= lines@.len(),
            ls == texts(lines@),
            entries_of(entries@) == line_entries(ls.take(i as int)),
        decreases lines@.len() - i,
    {
        let ghost before = entries_of(entries@);
        proof {
            assert(ls.take(i + 1).drop_last() =~= ls.take(i as int));
            assert(ls.take(i + 1).last() == lines@[i as int]@);
        }
        match entry_of_line(&lines[i]) {
            Some(en) => {
                let ghost ev = (en.0@, en.1@);
                entries.push(en);
                proof {
                    assert(entries_of(entries@) =~= before.push(ev));
                }
            },
            None => {},
        }
        i = i + 1;
    }
    proof {
        assert(ls.take(i as int) =~= ls);
    }
    if entries.len() == 0 {
        return None;
    }
    Some(FrontMatter { entries })
}

/// The value of the last entry with key `key`, as later entries override earlier ones.
pub open spec fn value_for(es: Seq<(Seq<char>, Seq<char>)>, key: Seq<char>) -> Option<Seq<char>>
    decreases es.len(),
{
    if es.len() == 0 {
        None
    } else if es.last().0 == key {
        Some(es.last().1)
    } else {
        value_for(es.drop_last(), key)
    }
}

impl FrontMatter {
    /// The value given for `key`, the last one where it is given more than once.
    pub fn get(&self, key: &str) -> (r: Option<String>)
        ensures
            match r {
                Some(v) => value_for(entries_of(self.entries@), key@) == Some(v@),
                None => value_for(entries_of(self.entries@), key@) is None,
            },
    {
        let k = chars_of(key);
        let ghost es = entries_of(self.entries@);
        let mut i: usize = self.entries.len();
        proof {
            assert(es.take(i as int) =~= es);
        }
        while i > 0
            invariant
                i <= self.entries@.len(),
                es == entries_of(self.entries@),
                k@ == key@,
                value_for(es, key@) == value_for(es.take(i as int), key@),
            decreases i,
        {
            proof {
                assert(es.take(i as int).drop_last() =~= es.take(i - 1));
                assert(es.take(i as int).last() == es[i - 1]);
            }
            let n = chars_of(self.entries[i - 1].0.as_str());
            if same_chars(n.as_slice(), k.as_slice()) {
                return Some(self.entries[i - 1].1.clone());
            }
            i = i - 1;
        }
        None
    }
}

} // verus!
