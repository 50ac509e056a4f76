use vstd::prelude::*;

use crate::setting::SettingManifest;
use crate::value::{decimal, decimal_text, ConfigurableValue};

verus! {

/// The position of the first `c` in `t`, or `t.len()` when there is none.
pub open spec fn first_index_of(t: Seq<char>, c: char) -> nat
    decreases t.len(),
{
    if t.len() == 0 {
        0
    } else if t[0] == c {
        0
    } else {
        1 + first_index_of(t.drop_first(), c)
    }
}

proof fn lemma_first_index(t: Seq<char>, c: char, i: int)
    requires
        0 <= i <= t.len(),
        forall|j: int| 0 <= j < i ==> t[j] != c,
        i == t.len() || t[i] == c,
    ensures
        first_index_of(t, c) == i,
    decreases i,
{
    if i > 0 {
        let d = t.drop_first();
        assert forall|j: int| 0 <= j < i - 1 implies d[j] != c by {
            assert(d[j] == t[j + 1]);
        }
        if i < t.len() {
            assert(d[i - 1] == t[i]);
        }
        lemma_first_index(d, c, i - 1);
    }
}

/// The key and value of one line, split at its first `=`; none for a line
/// without `=`.
pub open spec fn line_entry(line: Seq<char>) -> Option<(Seq<char>, Seq<char>)> {
    let k = first_index_of(line, '=') as int;
    if k == line.len() {
        None
    } else {
        Some((line.subrange(0, k), line.subrange(k + 1, line.len() as int)))
    }
}

/// The entries of a properties text, one line after another, in order.
pub open spec fn properties_entries(t: Seq<char>) -> Seq<(Seq<char>, Seq<char>)>
    decreases t.len(),
{
    if t.len() == 0 {
        seq![]
    } else {
        let k = first_index_of(t, '\n') as int;
        let head = match line_entry(t.subrange(0, k)) {
            Some(e) => seq![e],
            None => seq![],
        };
        if k < t.len() {
            head + properties_entries(t.subrange(k + 1, t.len() as int))
        } else {
            head
        }
    }
}

pub open spec fn pairs_view(v: Seq<(String, String)>) -> Seq<(Seq<char>, Seq<char>)> {
    v.map_values(|p: (String, String)| (p.0@, p.1@))
}

fn find_char(t: &str, c: char) -> (r: usize)
    ensures
        r == first_index_of(t@, c),
        r <= t@.len(),
{
    let n = t.unicode_len();
    let mut i: usize = 0;
    while i < n
        invariant
            n == t@.len(),
            i <= n,
            forall|j: int| 0 <= j < i ==> t@[j] != c,
        decreases n - i,
    {
        if t.get_char(i) == c {
            proof {
                lemma_first_index(t@, c, i as int);
            }
            return i;
        }
        i += 1;
    }
    proof {
        lemma_first_index(t@, c, i as int);
    }
    n
}

/// The key and value of one line, as `line_entry` describes.
pub fn parse_line(line: &str) -> (r: Option<(String, String)>)
    ensures
        match r {
            Some(p) => line_entry(line@) == Some((p.0@, p.1@)),
            None => line_entry(line@) is None,
        },
{
    let n = line.unicode_len();
    let k = find_char(line, '=');
    if k == n {
        None
    } else {
        let key = String::from_str(line.substring_char(0, k));
        let value = String::from_str(line.substring_char(k + 1, n));
        Some((key, value))
    }
}

/// The entries of a properties text: one per line holding `=`, split at the
/// first `=`, with no quoting or escaping.
pub fn parse_properties(text: &str) -> (r: Vec<(String, String)>)
    ensures
        pairs_view(r@) == properties_entries(text@),
{
    let mut out: Vec<(String, String)> = Vec::new();
    let mut rest: &str = text;
    proof {
        assert(pairs_view(out@) =~= Seq::<(Seq<char>, Seq<char>)>::empty());
        assert(pairs_view(out@) + properties_entries(rest@) =~= properties_entries(text@));
    }
    while rest.unicode_len() > 0
        invariant
            pairs_view(out@) + properties_entries(rest@) == properties_entries(text@),
        decreases rest@.len(),
    {
        let n = rest.unicode_len();
        let k = find_char(rest, '\n');
        let line = rest.substring_char(0, k);
        let ghost old_out = out@;
        let ghost old_rest = rest@;
        match parse_line(line) {
            Some(e) => {
                out.push(e);
                proof {
                    assert(pairs_view(out@) =~= pairs_view(old_out).push((e.0@, e.1@)));
                }
            },
            None => {},
        }
        if k < n {
            rest = rest.substring_char(k + 1, n);
        } else {
            rest = rest.substring_char(n, n);
        }
        proof {
            let head = match line_entry(old_rest.subrange(0, k as int)) {
                Some(x) => seq![x],
                None => seq![],
            };
            assert(pairs_view(out@) =~= pairs_view(old_out) + head);
            if k < n {
                assert(properties_entries(old_rest) == head + properties_entries(rest@));
            } else {
                assert(rest@.len() == 0);
                assert(properties_entries(old_rest) == head);
                assert(properties_entries(rest@) =~= Seq::<(Seq<char>, Seq<char>)>::empty());
            }
            assert(pairs_view(out@) + properties_entries(rest@) =~= pairs_view(old_out) + (head
                + properties_entries(rest@)));
        }
    }
    proof {
        assert(properties_entries(rest@) =~= Seq::<(Seq<char>, Seq<char>)>::empty());
        assert(pairs_view(out@) + properties_entries(rest@) =~= pairs_view(out@));
    }
    out
}

/// The text a value is written as in a properties file; a float has none
/// here.
pub open spec fn value_text(v: ConfigurableValue) -> Option<Seq<char>> {
    match v {
        ConfigurableValue::String(s) => Some(s@),
        ConfigurableValue::Integer(x) => Some(decimal(x as int)),
        ConfigurableValue::UnsignedInteger(x) => Some(decimal(x as int)),
        ConfigurableValue::Float(_) => None,
        ConfigurableValue::Boolean(b) => Some(
            if b {
                "true"@
            } else {
                "false"@
            },
        ),
        ConfigurableValue::Enum(t) => Some(t@),
    }
}

/// The properties text of settings `s`: one `id=value` line each, in order;
/// none when a setting has no value or no text for it.
pub open spec fn properties_text(s: Seq<SettingManifest>) -> Option<Seq<char>>
    decreases s.len(),
{
    if s.len() == 0 {
        Some(seq![])
    } else {
        match properties_text(s.drop_last()) {
            Some(t) => match s.last().value {
                Some(v) => match value_text(v) {
                    Some(x) => Some(t + s.last().setting_id@ + "="@ + x + "\n"@),
                    None => None,
                },
                None => None,
            },
            None => None,
        }
    }
}

proof fn lemma_text_none_extends(s: Seq<SettingManifest>, i: int)
    requires
        0 <= i <= s.len(),
        properties_text(s.subrange(0, i)) is None,
    ensures
        properties_text(s) is None,
    decreases s.len() - i,
{
    if i < s.len() {
        assert(s.subrange(0, i + 1).drop_last() =~= s.subrange(0, i));
        lemma_text_none_extends(s, i + 1);
    } else {
        assert(s.subrange(0, i) =~= s);
    }
}

impl ConfigurableValue {
    /// The text of this value in a properties file; `None` for a float.
    pub fn to_text(&self) -> (r: Option<String>)
        ensures
            match r {
                Some(t) => value_text(*self) == Some(t@),
                None => value_text(*self) is None,
            },
    {
        match self {
            ConfigurableValue::String(s) => Some(s.clone()),
            ConfigurableValue::Integer(x) => Some(decimal_text(*x as i64)),
            ConfigurableValue::UnsignedInteger(x) => Some(decimal_text(*x as i64)),
            ConfigurableValue::Float(_) => None,
            ConfigurableValue::Boolean(b) => Some(
                if *b {
                    String::from_str("true")
                } else {
                    String::from_str("false")
                },
            ),
            ConfigurableValue::Enum(t) => Some(t.clone()),
        }
    }
}

/// Writes settings as a properties text, as `properties_text` describes.
pub fn write_properties(settings: &Vec<SettingManifest>) -> (r: Option<String>)
    ensures
        match r {
            Some(t) => properties_text(settings@) == Some(t@),
            None => properties_text(settings@) is None,
        },
{
    let mut text = String::new();
    let mut i: usize = 0;
    proof {
        assert(settings@.subrange(0, 0) =~= Seq::<SettingManifest>::empty());
    }
    while i < settings.len()
        invariant
            i <= settings@.len(),
            properties_text(settings@.subrange(0, i as int)) == Some(text@),
        decreases settings@.len() - i,
    {
        let s = &settings[i];
        proof {
            assert(settings@.subrange(0, i + 1).drop_last() =~= settings@.subrange(0, i as int));
            assert(settings@.subrange(0, i + 1).last() == settings@[i as int]);
        }
        let line_value = match &s.value {
            Some(v) => v.to_text(),
            None => None,
        };
        match line_value {
            Some(x) => {
                text.append(s.setting_id.as_str());
                text.append("=");
                text.append(x.as_str());
                text.append("\n");
                proof {
                    assert(text@ =~= properties_text(settings@.subrange(0, i as int)).unwrap()
                        + s.setting_id@ + "="@ + x@ + "\n"@);
                }
            },
            None => {
                proof {
                    lemma_text_none_extends(settings@, i + 1);
                }
                return None;
            },
        }
        i += 1;
    }
    proof {
        assert(settings@.subrange(0, i as int) =~= settings@);
    }
    Some(text)
}

/// The properties text of a new instance: its port alone.
pub open spec fn initial_properties(port: u32) -> Seq<char> {
    "server-port="@ + decimal(port as int)
}

pub fn initial_properties_text(port: u32) -> (r: String)
    ensures
        r@ == initial_properties(port),
{
    let mut text = String::from_str("server-port=");
    let digits = decimal_text(port as i64);
    text.append(digits.as_str());
    text
}

} // verus!
