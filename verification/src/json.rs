//! The configuration's JSON encoding, written by the library itself: the
//! tagged-union shape `{"Basic": "..."}` / `{"BiggestFileInFolder":
//! {"folder": "...", "file_type": "..."}}` inside `{"search_patterns": [...],
//! "root_folder": "..."}`, with quotes and backslashes escaped.

use vstd::prelude::*;

use crate::pattern::BiggestFileInFolderContainer;
use crate::pattern::Config;
use crate::pattern::PatternModel;
use crate::pattern::SearchPatternType;
use crate::pattern::pattern_views;
use crate::report::push_char;

verus! {

/// The escaped form of one character inside a JSON string literal.
pub open spec fn escaped_char(c: char) -> Seq<char> {
    if c == '"' || c == '\\' {
        seq!['\\', c]
    } else {
        seq![c]
    }
}

/// The escaped form of a whole string's characters.
pub open spec fn escaped(t: Seq<char>) -> Seq<char>
    decreases t.len(),
{
    if t.len() == 0 {
        Seq::empty()
    } else {
        escaped(t.drop_last()) + escaped_char(t.last())
    }
}

/// The JSON encoding of one pattern.
pub open spec fn json_of_pattern(p: PatternModel) -> Seq<char> {
    match p {
        PatternModel::Basic(name) => "{\"Basic\":\""@ + escaped(name) + "\"}"@,
        PatternModel::BiggestFileInFolder(folder, file_type) => "{\"BiggestFileInFolder\":{\"folder\":\""@
            + escaped(folder) + "\",\"file_type\":\""@ + escaped(file_type) + "\"}}"@,
    }
}

/// The JSON encoding of the pattern list, comma-separated.
pub open spec fn json_of_patterns(ps: Seq<PatternModel>) -> Seq<char>
    decreases ps.len(),
{
    if ps.len() == 0 {
        Seq::empty()
    } else if ps.len() == 1 {
        json_of_pattern(ps[0])
    } else {
        json_of_patterns(ps.drop_last()) + ","@ + json_of_pattern(ps.last())
    }
}

/// The JSON encoding of a whole configuration.
pub open spec fn json_of_config(c: Config) -> Seq<char> {
    "{\"search_patterns\":["@ + json_of_patterns(pattern_views(c.search_patterns@))
        + "],\"root_folder\":\""@ + escaped(c.root_folder@) + "\"}"@
}

/// Writes `t`'s characters with quotes and backslashes escaped.
fn escape_into(out: &mut String, t: &String)
    ensures
        final(out)@ == old(out)@ + escaped(t@),
{
    let ghost base = out@;
    let n = t.as_str().unicode_len();
    let mut i: usize = 0;
    proof {
        assert(t@.subrange(0, 0) =~= Seq::<char>::empty());
        assert(base + Seq::<char>::empty() =~= base);
    }
    while i < n
        invariant
            n == t@.len(),
            i <= n,
            out@ == base + escaped(t@.subrange(0, i as int)),
        decreases n - i,
    {
        let c = t.as_str().get_char(i);
        if c == '"' || c == '\\' {
            push_char(out, '\\');
        }
        push_char(out, c);
        proof {
            assert(t@.subrange(0, i + 1).drop_last() =~= t@.subrange(0, i as int));
            assert(t@.subrange(0, i + 1).last() == t@[i as int]);
            assert(out@ =~= base + escaped(t@.subrange(0, i + 1)));
        }
        i += 1;
    }
    proof {
        assert(t@.subrange(0, t@.len() as int) =~= t@);
        assert(out@ =~= base + escaped(t@));
    }
}

/// Writes the JSON encoding of one pattern.
fn pattern_into(out: &mut String, p: &SearchPatternType)
    ensures
        final(out)@ == old(out)@ + json_of_pattern(p@),
{
    match p {
        SearchPatternType::Basic(name) => {
            out.append("{\"Basic\":\"");
            escape_into(out, name);
            out.append("\"}");
            proof {
                assert(out@ =~= old(out)@ + json_of_pattern(p@));
            }
        },
        SearchPatternType::BiggestFileInFolder(c) => {
            out.append("{\"BiggestFileInFolder\":{\"folder\":\"");
            escape_into(out, &c.folder);
            out.append("\",\"file_type\":\"");
            escape_into(out, &c.file_type);
            out.append("\"}}");
            proof {
                assert(out@ =~= old(out)@ + json_of_pattern(p@));
            }
        },
    }
}

/// The JSON text of `config`, in the shape the configuration file uses.
pub fn config_to_json(config: &Config) -> (text: String)
    ensures
        text@ == json_of_config(*config),
{
    let mut out = String::from_str("{\"search_patterns\":[");
    let n = config.search_patterns.len();
    let mut i: usize = 0;
    proof {
        let views = pattern_views(config.search_patterns@);
        assert(views.subrange(0, 0) =~= Seq::<PatternModel>::empty());
        assert(out@ + Seq::<char>::empty() =~= out@);
    }
    while i < n
        invariant
            n == config.search_patterns@.len(),
            i <= n,
            out@ == "{\"search_patterns\":["@ + json_of_patterns(
                pattern_views(config.search_patterns@).subrange(0, i as int),
            ),
        decreases n - i,
    {
        if i > 0 {
            out.append(",");
        }
        pattern_into(&mut out, &config.search_patterns[i]);
        proof {
            let views = pattern_views(config.search_patterns@);
            assert(views.subrange(0, i + 1).drop_last() =~= views.subrange(0, i as int));
            assert(views.subrange(0, i + 1).last() == views[i as int]);
            if i == 0 {
                assert(json_of_patterns(views.subrange(0, 1)) == json_of_pattern(views[0]));
            }
            assert(out@ =~= "{\"search_patterns\":["@ + json_of_patterns(
                views.subrange(0, i + 1),
            ));
        }
        i += 1;
    }
    proof {
        let views = pattern_views(config.search_patterns@);
        assert(views.subrange(0, views.len() as int) =~= views);
    }
    out.append("],\"root_folder\":\"");
    escape_into(&mut out, &config.root_folder);
    out.append("\"}");
    proof {
        assert(out@ =~= json_of_config(*config));
    }
    out
}

/// Whether `lit` occurs in `s` at position `i`.
pub open spec fn starts_with(s: Seq<char>, i: nat, lit: Seq<char>) -> bool {
    i + lit.len() <= s.len() && s.subrange(i as int, (i + lit.len()) as int) == lit
}

/// Parses a JSON string literal's body at `i`, just past the opening quote:
/// the decoded characters and the position just past the closing quote.
pub open spec fn parse_string_body(s: Seq<char>, i: nat) -> Option<(Seq<char>, nat)>
    decreases s.len() - i,
{
    if i >= s.len() {
        Option::None
    } else if s[i as int] == '"' {
        Option::Some((Seq::empty(), (i + 1) as nat))
    } else if s[i as int] == '\\' {
        if i + 1 < s.len() && (s[i + 1 as int] == '"' || s[i + 1 as int] == '\\') {
            match parse_string_body(s, (i + 2) as nat) {
                Option::Some((t, j)) => Option::Some((seq![s[i + 1 as int]] + t, j)),
                Option::None => Option::None,
            }
        } else {
            Option::None
        }
    } else {
        match parse_string_body(s, (i + 1) as nat) {
            Option::Some((t, j)) => Option::Some((seq![s[i as int]] + t, j)),
            Option::None => Option::None,
        }
    }
}

/// Parses one encoded pattern at `i`.
pub open spec fn parse_pattern(s: Seq<char>, i: nat) -> Option<(PatternModel, nat)> {
    if starts_with(s, i, "{\"Basic\":\""@) {
        match parse_string_body(s, i + "{\"Basic\":\""@.len()) {
            Option::Some((name, j)) => if starts_with(s, j, "}"@) {
                Option::Some((PatternModel::Basic(name), j + "}"@.len()))
            } else {
                Option::None
            },
            Option::None => Option::None,
        }
    } else if starts_with(s, i, "{\"BiggestFileInFolder\":{\"folder\":\""@) {
        match parse_string_body(s, i + "{\"BiggestFileInFolder\":{\"folder\":\""@.len()) {
            Option::Some((folder, j)) => if starts_with(s, j, ",\"file_type\":\""@) {
                match parse_string_body(s, j + ",\"file_type\":\""@.len()) {
                    Option::Some((file_type, k)) => if starts_with(s, k, "}}"@) {
                        Option::Some(
                            (
                                PatternModel::BiggestFileInFolder(folder, file_type),
                                k + "}}"@.len(),
                            ),
                        )
                    } else {
                        Option::None
                    },
                    Option::None => Option::None,
                }
            } else {
                Option::None
            },
            Option::None => Option::None,
        }
    } else {
        Option::None
    }
}

/// Parses the pattern list at `i` up to and including the closing bracket.
/// `fuel` bounds the number of patterns still expected; the entry points pass
/// the text's length, which always suffices.
pub open spec fn parse_patterns(s: Seq<char>, i: nat, fuel: nat) -> Option<
    (Seq<PatternModel>, nat),
>
    decreases fuel,
{
    if starts_with(s, i, "]"@) {
        Option::Some((Seq::empty(), i + "]"@.len()))
    } else {
        match parse_pattern(s, i) {
            Option::Some((p, j)) => if starts_with(s, j, ","@) {
                if fuel == 0 {
                    Option::None
                } else {
                    match parse_patterns(s, j + ","@.len(), (fuel - 1) as nat) {
                        Option::Some((ps, k)) => Option::Some((seq![p] + ps, k)),
                        Option::None => Option::None,
                    }
                }
            } else if starts_with(s, j, "]"@) {
                Option::Some((seq![p], j + "]"@.len()))
            } else {
                Option::None
            },
            Option::None => Option::None,
        }
    }
}

/// Parses a whole configuration: the pattern models and the root folder.
/// The text must be exactly the canonical form `config_to_json` writes.
pub open spec fn parse_config_text(s: Seq<char>) -> Option<(Seq<PatternModel>, Seq<char>)> {
    if starts_with(s, 0, "{\"search_patterns\":["@) {
        match parse_patterns(s, "{\"search_patterns\":["@.len(), s.len()) {
            Option::Some((ps, i)) => if starts_with(s, i, ",\"root_folder\":\""@) {
                match parse_string_body(s, i + ",\"root_folder\":\""@.len()) {
                    Option::Some((root, j)) => if j + "}"@.len() == s.len() && starts_with(
                        s,
                        j,
                        "}"@,
                    ) {
                        Option::Some((ps, root))
                    } else {
                        Option::None
                    },
                    Option::None => Option::None,
                }
            } else {
                Option::None
            },
            Option::None => Option::None,
        }
    } else {
        Option::None
    }
}

/// Splitting a tail equality: if the text from `i` on reads `pre` then
/// `suf`, then `pre` stands at `i` and the text from just past it reads
/// `suf`.
proof fn lemma_skip_prefix(s: Seq<char>, i: nat, pre: Seq<char>, suf: Seq<char>)
    requires
        i <= s.len(),
        s.skip(i as int) == pre + suf,
    ensures
        starts_with(s, i, pre),
        s.skip((i + pre.len()) as int) == suf,
{
    assert(s.skip(i as int).len() == s.len() - i);
    assert(i + pre.len() + suf.len() == s.len());
    assert forall|k: int| 0 <= k < pre.len() implies s.subrange(
        i as int,
        (i + pre.len()) as int,
    )[k] == pre[k] by {
        assert(s.skip(i as int)[k] == (pre + suf)[k]);
    }
    assert(s.subrange(i as int, (i + pre.len()) as int) =~= pre);
    assert forall|k: int| 0 <= k < suf.len() implies s.skip((i + pre.len()) as int)[k]
        == suf[k] by {
        assert(s.skip(i as int)[pre.len() + k] == (pre + suf)[pre.len() + k]);
        assert(s.skip(i as int)[pre.len() + k] == s[i + pre.len() + k]);
        assert(s.skip((i + pre.len()) as int)[k] == s[i + pre.len() + k]);
    }
    assert(s.skip((i + pre.len()) as int) =~= suf);
}

/// The escaped form, unfolded at the front instead of the back.
proof fn lemma_escaped_first(t: Seq<char>)
    requires
        t.len() > 0,
    ensures
        escaped(t) == escaped_char(t.first()) + escaped(t.drop_first()),
    decreases t.len(),
{
    if t.len() == 1 {
        assert(t.drop_last() =~= Seq::<char>::empty());
        assert(t.drop_first() =~= Seq::<char>::empty());
        assert(t.last() == t.first());
        assert(escaped(t) =~= escaped_char(t.first()) + escaped(t.drop_first()));
    } else {
        let u = t.drop_last();
        lemma_escaped_first(u);
        assert(u.first() == t.first());
        assert(u.drop_first() =~= t.drop_first().drop_last());
        assert(t.drop_first().last() == t.last());
        assert(escaped(t.drop_first()) == escaped(t.drop_first().drop_last()) + escaped_char(
            t.last(),
        ));
        assert(escaped(t) =~= escaped_char(t.first()) + escaped(t.drop_first()));
    }
}

/// The encoded pattern list, unfolded at the front instead of the back.
proof fn lemma_json_of_patterns_first(ps: Seq<PatternModel>)
    requires
        ps.len() > 0,
    ensures
        ps.len() == 1 ==> json_of_patterns(ps) == json_of_pattern(ps.first()),
        ps.len() > 1 ==> json_of_patterns(ps) == json_of_pattern(ps.first()) + ","@
            + json_of_patterns(ps.drop_first()),
    decreases ps.len(),
{
    if ps.len() == 1 {
    } else if ps.len() == 2 {
        let u = ps.drop_last();
        assert(u.len() == 1);
        assert(u[0] == ps.first());
        assert(json_of_patterns(u) == json_of_pattern(u[0]));
        assert(ps.drop_first().len() == 1);
        assert(ps.drop_first()[0] == ps.last());
        assert(json_of_patterns(ps.drop_first()) == json_of_pattern(ps.last()));
        assert(json_of_patterns(ps) == json_of_pattern(ps.first()) + ","@ + json_of_patterns(
            ps.drop_first(),
        ));
    } else {
        let u = ps.drop_last();
        lemma_json_of_patterns_first(u);
        assert(u.first() == ps.first());
        assert(u.drop_first() =~= ps.drop_first().drop_last());
        assert(ps.drop_first().last() == ps.last());
        assert(ps.drop_first().len() > 1);
        assert(json_of_patterns(ps.drop_first()) == json_of_patterns(
            ps.drop_first().drop_last(),
        ) + ","@ + json_of_pattern(ps.last()));
        assert(json_of_patterns(ps) =~= json_of_pattern(ps.first()) + ","@ + json_of_patterns(
            ps.drop_first(),
        ));
    }
}

/// Parsing reads back exactly what escaping wrote: a text that continues
/// with `t`'s escaped characters, the closing quote, and anything after
/// parses to `t`, ending just past the quote.
proof fn lemma_parse_escaped(t: Seq<char>, s: Seq<char>, i: nat, rest: Seq<char>)
    requires
        i <= s.len(),
        s.skip(i as int) == escaped(t) + seq!['"'] + rest,
    ensures
        parse_string_body(s, i) == Option::Some((t, (i + escaped(t).len() + 1) as nat)),
    decreases t.len(),
{
    assert(s.skip(i as int).len() == s.len() - i);
    if t.len() == 0 {
        assert(escaped(t) + seq!['"'] + rest =~= seq!['"'] + rest);
        lemma_skip_prefix(s, i, seq!['"'], rest);
        assert(s.subrange(i as int, i + 1 as int)[0] == s[i as int]);
        assert(s[i as int] == '"');
    } else {
        let c = t.first();
        let u = t.drop_first();
        lemma_escaped_first(t);
        assert(seq![c] + u =~= t);
        if c == '"' || c == '\\' {
            let tail = escaped(u) + seq!['"'] + rest;
            assert(s.skip(i as int) =~= seq!['\\', c] + tail);
            lemma_skip_prefix(s, i, seq!['\\', c], tail);
            assert(s.subrange(i as int, i + 2 as int)[0] == s[i as int]);
            assert(s.subrange(i as int, i + 2 as int)[1] == s[i + 1 as int]);
            assert(s[i as int] == '\\');
            assert(s[i + 1 as int] == c);
            lemma_parse_escaped(u, s, (i + 2) as nat, rest);
        } else {
            let tail = escaped(u) + seq!['"'] + rest;
            assert(s.skip(i as int) =~= seq![c] + tail);
            lemma_skip_prefix(s, i, seq![c], tail);
            assert(s.subrange(i as int, i + 1 as int)[0] == s[i as int]);
            assert(s[i as int] == c);
            lemma_parse_escaped(u, s, (i + 1) as nat, rest);
        }
    }
}

/// Parsing reads back exactly what the pattern encoder wrote.
proof fn lemma_parse_pattern_of_emit(p: PatternModel, s: Seq<char>, i: nat, rest: Seq<char>)
    requires
        i <= s.len(),
        s.skip(i as int) == json_of_pattern(p) + rest,
    ensures
        parse_pattern(s, i) == Option::Some((p, (i + json_of_pattern(p).len()) as nat)),
{
    reveal_strlit("{\"Basic\":\"");
    reveal_strlit("{\"BiggestFileInFolder\":{\"folder\":\"");
    reveal_strlit("\"}");
    reveal_strlit("}");
    reveal_strlit("\",\"file_type\":\"");
    reveal_strlit(",\"file_type\":\"");
    reveal_strlit("}}");
    reveal_strlit("\"}}");
    let basic = "{\"Basic\":\""@;
    let biff = "{\"BiggestFileInFolder\":{\"folder\":\""@;
    match p {
        PatternModel::Basic(name) => {
            let tail1 = escaped(name) + seq!['"'] + ("}"@ + rest);
            assert(s.skip(i as int) =~= basic + tail1);
            lemma_skip_prefix(s, i, basic, tail1);
            lemma_parse_escaped(name, s, (i + basic.len()) as nat, "}"@ + rest);
            assert(tail1 =~= (escaped(name) + seq!['"']) + ("}"@ + rest));
            lemma_skip_prefix(
                s,
                (i + basic.len()) as nat,
                escaped(name) + seq!['"'],
                "}"@ + rest,
            );
            let j = (i + basic.len() + escaped(name).len() + 1) as nat;
            lemma_skip_prefix(s, j, "}"@, rest);
            assert(parse_pattern(s, i) == Option::Some(
                (PatternModel::Basic(name), (j + 1) as nat),
            ));
            assert(i + json_of_pattern(p).len() == j + 1);
        },
        PatternModel::BiggestFileInFolder(folder, file_type) => {
            let mid = ",\"file_type\":\""@;
            let tail2 = escaped(file_type) + seq!['"'] + ("}}"@ + rest);
            let tail1 = escaped(folder) + seq!['"'] + (mid + tail2);
            assert(s.skip(i as int) =~= biff + tail1);
            lemma_skip_prefix(s, i, biff, tail1);
            assert(s.subrange(i as int, (i + biff.len()) as int)[3] == s[i + 3 as int]);
            assert(s[i + 3 as int] == 'i');
            if starts_with(s, i, basic) {
                assert(s.subrange(i as int, (i + basic.len()) as int)[3] == s[i + 3 as int]);
                assert(s[i + 3 as int] == 'a');
            }
            assert(!starts_with(s, i, basic));
            lemma_parse_escaped(folder, s, (i + biff.len()) as nat, mid + tail2);
            assert(tail1 =~= (escaped(folder) + seq!['"']) + (mid + tail2));
            lemma_skip_prefix(
                s,
                (i + biff.len()) as nat,
                escaped(folder) + seq!['"'],
                mid + tail2,
            );
            let j = (i + biff.len() + escaped(folder).len() + 1) as nat;
            lemma_skip_prefix(s, j, mid, tail2);
            lemma_parse_escaped(file_type, s, (j + mid.len()) as nat, "}}"@ + rest);
            assert(tail2 =~= (escaped(file_type) + seq!['"']) + ("}}"@ + rest));
            lemma_skip_prefix(
                s,
                (j + mid.len()) as nat,
                escaped(file_type) + seq!['"'],
                "}}"@ + rest,
            );
            let k = (j + mid.len() + escaped(file_type).len() + 1) as nat;
            lemma_skip_prefix(s, k, "}}"@, rest);
            assert(parse_pattern(s, i) == Option::Some(
                (PatternModel::BiggestFileInFolder(folder, file_type), (k + 2) as nat),
            ));
            assert(i + json_of_pattern(p).len() == k + 2);
        },
    }
}

/// Each encoded pattern takes at least one character, so the encoded list is
/// at least as long as the list itself.
proof fn lemma_json_patterns_len(ps: Seq<PatternModel>)
    ensures
        json_of_patterns(ps).len() >= ps.len(),
    decreases ps.len(),
{
    reveal_strlit("{\"Basic\":\"");
    reveal_strlit("{\"BiggestFileInFolder\":{\"folder\":\"");
    if ps.len() == 0 {
    } else if ps.len() == 1 {
        match ps[0] {
            PatternModel::Basic(_) => {},
            PatternModel::BiggestFileInFolder(_, _) => {},
        }
    } else {
        lemma_json_patterns_len(ps.drop_last());
        match ps.last() {
            PatternModel::Basic(_) => {},
            PatternModel::BiggestFileInFolder(_, _) => {},
        }
    }
}

/// Parsing reads back exactly what the list encoder wrote, up to and
/// including the closing bracket, for any fuel at least the list's length.
proof fn lemma_parse_patterns_of_emit(
    ps: Seq<PatternModel>,
    s: Seq<char>,
    i: nat,
    rest: Seq<char>,
    fuel: nat,
)
    requires
        i <= s.len(),
        s.skip(i as int) == json_of_patterns(ps) + "]"@ + rest,
        fuel >= ps.len(),
    ensures
        parse_patterns(s, i, fuel) == Option::Some(
            (ps, (i + json_of_patterns(ps).len() + 1) as nat),
        ),
    decreases ps.len(),
{
    reveal_strlit("]");
    reveal_strlit(",");
    reveal_strlit("{\"Basic\":\"");
    reveal_strlit("{\"BiggestFileInFolder\":{\"folder\":\"");
    if ps.len() == 0 {
        assert(json_of_patterns(ps) + "]"@ + rest =~= "]"@ + rest);
        lemma_skip_prefix(s, i, "]"@, rest);
    } else {
        let p0 = ps.first();
        lemma_json_of_patterns_first(ps);
        let jp0 = json_of_pattern(p0);
        assert(jp0[0] == '{') by {
            match p0 {
                PatternModel::Basic(_) => {},
                PatternModel::BiggestFileInFolder(_, _) => {},
            }
        }
        if ps.len() == 1 {
            assert(json_of_patterns(ps) + "]"@ + rest =~= jp0 + ("]"@ + rest));
            lemma_parse_pattern_of_emit(p0, s, i, "]"@ + rest);
            lemma_skip_prefix(s, i, jp0, "]"@ + rest);
            let j = (i + jp0.len()) as nat;
            lemma_skip_prefix(s, j, "]"@, rest);
            assert(s[i as int] == '{') by {
                assert(s.subrange(i as int, (i + jp0.len()) as int)[0] == s[i as int]);
            }
            if starts_with(s, i, "]"@) {
                assert(s.subrange(i as int, i + 1 as int)[0] == s[i as int]);
            }
            assert(!starts_with(s, i, "]"@));
            assert(s[j as int] == ']') by {
                assert(s.subrange(j as int, j + 1 as int)[0] == s[j as int]);
            }
            if starts_with(s, j, ","@) {
                assert(s.subrange(j as int, j + 1 as int)[0] == s[j as int]);
            }
            assert(!starts_with(s, j, ","@));
            assert(seq![p0] =~= ps);
        } else {
            let ps2 = ps.drop_first();
            let suf = json_of_patterns(ps2) + "]"@ + rest;
            assert(json_of_patterns(ps) + "]"@ + rest =~= jp0 + (","@ + suf));
            lemma_parse_pattern_of_emit(p0, s, i, ","@ + suf);
            lemma_skip_prefix(s, i, jp0, ","@ + suf);
            let j = (i + jp0.len()) as nat;
            lemma_skip_prefix(s, j, ","@, suf);
            assert(s[i as int] == '{') by {
                assert(s.subrange(i as int, (i + jp0.len()) as int)[0] == s[i as int]);
            }
            if starts_with(s, i, "]"@) {
                assert(s.subrange(i as int, i + 1 as int)[0] == s[i as int]);
            }
            assert(!starts_with(s, i, "]"@));
            lemma_parse_patterns_of_emit(ps2, s, (j + 1) as nat, rest, (fuel - 1) as nat);
            assert(seq![p0] + ps2 =~= ps);
        }
    }
}

/// Law: writing a configuration out and parsing the text back yields the
/// configuration again — the pattern list, variants included, and the root
/// folder.
pub proof fn lemma_config_round_trip(c: Config)
    ensures
        parse_config_text(json_of_config(c)) == Option::Some(
            (pattern_views(c.search_patterns@), c.root_folder@),
        ),
{
    reveal_strlit("{\"search_patterns\":[");
    reveal_strlit("],\"root_folder\":\"");
    reveal_strlit(",\"root_folder\":\"");
    reveal_strlit("]");
    reveal_strlit("\"}");
    reveal_strlit("}");
    let s = json_of_config(c);
    let ps = pattern_views(c.search_patterns@);
    let head = "{\"search_patterns\":["@;
    let mid = ",\"root_folder\":\""@;
    let root = c.root_folder@;
    assert(s.skip(0) =~= s);
    let suf2 = escaped(root) + seq!['"'] + ("}"@ + Seq::<char>::empty());
    let suf1 = json_of_patterns(ps) + "]"@ + (mid + suf2);
    assert(s =~= head + suf1);
    lemma_skip_prefix(s, 0, head, suf1);
    lemma_json_patterns_len(ps);
    lemma_parse_patterns_of_emit(ps, s, head.len(), mid + suf2, s.len());
    assert(suf1 =~= (json_of_patterns(ps) + "]"@) + (mid + suf2));
    lemma_skip_prefix(s, head.len(), json_of_patterns(ps) + "]"@, mid + suf2);
    let i = (head.len() + json_of_patterns(ps).len() + 1) as nat;
    lemma_skip_prefix(s, i, mid, suf2);
    lemma_parse_escaped(root, s, (i + mid.len()) as nat, "}"@ + Seq::<char>::empty());
    assert(suf2 =~= (escaped(root) + seq!['"']) + ("}"@ + Seq::<char>::empty()));
    lemma_skip_prefix(s, (i + mid.len()) as nat, escaped(root) + seq!['"'], "}"@ + Seq::<char>::empty());
    let j = (i + mid.len() + escaped(root).len() + 1) as nat;
    lemma_skip_prefix(s, j, "}"@, Seq::<char>::empty());
    assert(s.skip(j as int).len() == s.len() - j);
    assert(j + "}"@.len() == s.len());
}

/// The text's characters, one by one.
fn str_to_chars(t: &str) -> (v: Vec<char>)
    ensures
        v@ == t@,
{
    let n = t.unicode_len();
    let mut v: Vec<char> = Vec::new();
    let mut i: usize = 0;
    while i < n
        invariant
            n == t@.len(),
            i <= n,
            v@ == t@.subrange(0, i as int),
        decreases n - i,
    {
        v.push(t.get_char(i));
        proof {
            assert(t@.subrange(0, i + 1) =~= t@.subrange(0, i as int).push(t@[i as int]));
        }
        i += 1;
    }
    proof {
        assert(t@.subrange(0, t@.len() as int) =~= t@);
    }
    v
}

/// Whether `lit` stands at `i`; on a match, the position just past it.
fn match_lit(s: &Vec<char>, i: usize, lit: &str) -> (r: Option<usize>)
    ensures
        match r {
            Option::Some(j) => starts_with(s@, i as nat, lit@) && j == i + lit@.len() && j
                <= s@.len(),
            Option::None => !starts_with(s@, i as nat, lit@),
        },
{
    let m = lit.unicode_len();
    if i > s.len() || m > s.len() - i {
        return Option::None;
    }
    let mut k: usize = 0;
    proof {
        assert(s@.len() <= usize::MAX);
    }
    while k < m
        invariant
            m == lit@.len(),
            i + m <= s@.len(),
            s@.len() <= usize::MAX,
            k <= m,
            forall|q: int| 0 <= q < k ==> s@[i + q] == lit@[q],
        decreases m - k,
    {
        if s[i + k] != lit.get_char(k) {
            proof {
                assert(s@.subrange(i as int, (i + m) as int)[k as int] == s@[i + k]);
            }
            return Option::None;
        }
        k += 1;
    }
    proof {
        assert forall|q: int| 0 <= q < m implies s@.subrange(i as int, (i + m) as int)[q]
            == lit@[q] by {
            assert(s@.subrange(i as int, (i + m) as int)[q] == s@[i + q]);
        }
        assert(s@.subrange(i as int, (i + m) as int) =~= lit@);
    }
    Option::Some(i + m)
}

/// Decodes a JSON string literal's body at `i`, just past the opening quote.
fn parse_string_body_exec(s: &Vec<char>, i: usize) -> (r: Option<(String, usize)>)
    ensures
        match r {
            Option::Some((t, j)) => parse_string_body(s@, i as nat) == Option::Some(
                (t@, j as nat),
            ) && j <= s@.len(),
            Option::None => parse_string_body(s@, i as nat) is None,
        },
    decreases s@.len() - i,
{
    if i >= s.len() {
        return Option::None;
    }
    let c = s[i];
    if c == '"' {
        return Option::Some((String::new(), i + 1));
    }
    if c == '\\' {
        if i + 1 < s.len() && (s[i + 1] == '"' || s[i + 1] == '\\') {
            match parse_string_body_exec(s, i + 2) {
                Option::Some((t, j)) => {
                    let mut out = String::new();
                    push_char(&mut out, s[i + 1]);
                    out.append(t.as_str());
                    proof {
                        assert(out@ =~= seq![s@[i + 1 as int]] + t@);
                    }
                    Option::Some((out, j))
                },
                Option::None => Option::None,
            }
        } else {
            Option::None
        }
    } else {
        match parse_string_body_exec(s, i + 1) {
            Option::Some((t, j)) => {
                let mut out = String::new();
                push_char(&mut out, c);
                out.append(t.as_str());
                proof {
                    assert(out@ =~= seq![s@[i as int]] + t@);
                }
                Option::Some((out, j))
            },
            Option::None => Option::None,
        }
    }
}

/// Decodes one encoded pattern at `i`.
fn parse_pattern_exec(s: &Vec<char>, i: usize) -> (r: Option<(SearchPatternType, usize)>)
    ensures
        match r {
            Option::Some((p, j)) => parse_pattern(s@, i as nat) == Option::Some((p@, j as nat))
                && j <= s@.len(),
            Option::None => parse_pattern(s@, i as nat) is None,
        },
{
    match match_lit(s, i, "{\"Basic\":\"") {
        Option::Some(a) => {
            match parse_string_body_exec(s, a) {
                Option::Some((name, j)) => {
                    match match_lit(s, j, "}") {
                        Option::Some(b) => Option::Some((SearchPatternType::Basic(name), b)),
                        Option::None => Option::None,
                    }
                },
                Option::None => Option::None,
            }
        },
        Option::None => {
            match match_lit(s, i, "{\"BiggestFileInFolder\":{\"folder\":\"") {
                Option::Some(a) => {
                    match parse_string_body_exec(s, a) {
                        Option::Some((folder, j)) => {
                            match match_lit(s, j, ",\"file_type\":\"") {
                                Option::Some(b) => {
                                    match parse_string_body_exec(s, b) {
                                        Option::Some((file_type, k)) => {
                                            match match_lit(s, k, "}}") {
                                                Option::Some(e) => Option::Some(
                                                    (
                                                        SearchPatternType::BiggestFileInFolder(
                                                            BiggestFileInFolderContainer {
                                                                folder,
                                                                file_type,
                                                            },
                                                        ),
                                                        e,
                                                    ),
                                                ),
                                                Option::None => Option::None,
                                            }
                                        },
                                        Option::None => Option::None,
                                    }
                                },
                                Option::None => Option::None,
                            }
                        },
                        Option::None => Option::None,
                    }
                },
                Option::None => Option::None,
            }
        },
    }
}

/// Decodes the pattern list at `i` up to and including the closing bracket.
fn parse_patterns_exec(s: &Vec<char>, i: usize, fuel: usize) -> (r: Option<
    (Vec<SearchPatternType>, usize),
>)
    ensures
        match r {
            Option::Some((v, j)) => parse_patterns(s@, i as nat, fuel as nat) == Option::Some(
                (pattern_views(v@), j as nat),
            ) && j <= s@.len(),
            Option::None => parse_patterns(s@, i as nat, fuel as nat) is None,
        },
    decreases fuel,
{
    match match_lit(s, i, "]") {
        Option::Some(j) => {
            let v: Vec<SearchPatternType> = Vec::new();
            proof {
                assert(pattern_views(v@) =~= Seq::<PatternModel>::empty());
            }
            Option::Some((v, j))
        },
        Option::None => {
            match parse_pattern_exec(s, i) {
                Option::Some((p, j)) => {
                    match match_lit(s, j, ",") {
                        Option::Some(a) => {
                            if fuel == 0 {
                                Option::None
                            } else {
                                match parse_patterns_exec(s, a, fuel - 1) {
                                    Option::Some((ps, k)) => {
                                        let ghost ps_view = ps@;
                                        let mut v = ps;
                                        v.insert(0, p);
                                        proof {
                                            assert(v@ =~= seq![p] + ps_view);
                                            assert(pattern_views(v@) =~= seq![p@]
                                                + pattern_views(ps_view));
                                        }
                                        Option::Some((v, k))
                                    },
                                    Option::None => Option::None,
                                }
                            }
                        },
                        Option::None => {
                            match match_lit(s, j, "]") {
                                Option::Some(b) => {
                                    let mut v: Vec<SearchPatternType> = Vec::new();
                                    let ghost p_view = p@;
                                    v.push(p);
                                    proof {
                                        assert(pattern_views(v@) =~= seq![p_view]);
                                    }
                                    Option::Some((v, b))
                                },
                                Option::None => Option::None,
                            }
                        },
                    }
                },
                Option::None => Option::None,
            }
        },
    }
}

/// Parses configuration text in the canonical form `config_to_json` writes;
/// any other text yields `None`.
pub fn parse_config(text: &str) -> (r: Option<Config>)
    ensures
        match r {
            Option::Some(c) => parse_config_text(text@) == Option::Some(
                (pattern_views(c.search_patterns@), c.root_folder@),
            ),
            Option::None => parse_config_text(text@) is None,
        },
{
    let s = str_to_chars(text);
    match match_lit(&s, 0, "{\"search_patterns\":[") {
        Option::Some(a) => {
            match parse_patterns_exec(&s, a, s.len()) {
                Option::Some((search_patterns, i)) => {
                    match match_lit(&s, i, ",\"root_folder\":\"") {
                        Option::Some(b) => {
                            match parse_string_body_exec(&s, b) {
                                Option::Some((root_folder, j)) => {
                                    match match_lit(&s, j, "}") {
                                        Option::Some(e) => {
                                            if e == s.len() {
                                                Option::Some(
                                                    Config { search_patterns, root_folder },
                                                )
                                            } else {
                                                Option::None
                                            }
                                        },
                                        Option::None => Option::None,
                                    }
                                },
                                Option::None => Option::None,
                            }
                        },
                        Option::None => Option::None,
                    }
                },
                Option::None => Option::None,
            }
        },
        Option::None => Option::None,
    }
}

} // verus!
