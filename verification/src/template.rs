//! The naming template language: `{field}` and `{field:0Nd}` tokens, and `[...]` blocks that
//! vanish when none of their fields has a value.

use vstd::prelude::*;
use crate::domain::{MetadataView, TrackMetadata};
use crate::text::{
    append_chars, chars_equal_str, chars_of, decimal, decimal_chars, decimal_chars_i32,
    decimal_signed, find_from, first_pos, is_first, lemma_first_pos, occurs, opt_chars,
    parse_unsigned, parse_unsigned_chars, string_of, sub_chars, zero_pad, zero_padded,
};

verus! {

/// The text that a field name stands for, before any number format is applied:
/// `album_artist` falls back to `artist`, and `title` to the source file stem.
pub open spec fn field_text(
    name: Seq<char>,
    m: MetadataView,
    stem: Seq<char>,
    ext: Seq<char>,
) -> Option<Seq<char>> {
    if name == "artist"@ {
        m.artist
    } else if name == "album_artist"@ {
        match m.album_artist {
            Some(a) => Some(a),
            None => m.artist,
        }
    } else if name == "album"@ {
        m.album
    } else if name == "title"@ {
        match m.title {
            Some(t) => Some(t),
            None => Some(stem),
        }
    } else if name == "source_stem"@ {
        Some(stem)
    } else if name == "extension"@ {
        Some(ext)
    } else if name == "track_no"@ {
        match m.track_no {
            Some(n) => Some(decimal(n as nat)),
            None => None,
        }
    } else if name == "disc_no"@ {
        match m.disc_no {
            Some(n) => Some(decimal(n as nat)),
            None => None,
        }
    } else if name == "year"@ {
        match m.year {
            Some(y) => Some(decimal_signed(y as int)),
            None => None,
        }
    } else {
        None
    }
}

/// `s` without all trailing `d` characters.
pub open spec fn trim_end_d(s: Seq<char>) -> Seq<char>
    decreases s.len(),
{
    if s.len() > 0 && s.last() == 'd' {
        trim_end_d(s.drop_last())
    } else {
        s
    }
}

/// A field text under an optional format spec. When the spec is `0` followed by a width
/// (and optional trailing `d`s) and the text reads as a `u32`, the number is written
/// zero-padded to that width; otherwise the text stays as it is.
pub open spec fn formatted(text: Seq<char>, spec: Option<Seq<char>>) -> Seq<char> {
    match spec {
        Some(sp) => match parse_unsigned(text, u32::MAX as int) {
            Some(n) => if sp.len() > 0 && sp[0] == '0' {
                match parse_unsigned(trim_end_d(sp.skip(1)), usize::MAX as int) {
                    Some(w) => zero_padded(decimal(n as nat), w as nat),
                    None => text,
                }
            } else {
                text
            },
            None => text,
        },
        None => text,
    }
}

/// The field name of a token: the part before its first `:`.
pub open spec fn token_name(t: Seq<char>) -> Seq<char> {
    match first_pos(t, ':') {
        Some(i) => t.take(i),
        None => t,
    }
}

/// The format spec of a token: the part after its first `:`, if there is one.
pub open spec fn token_spec(t: Seq<char>) -> Option<Seq<char>> {
    match first_pos(t, ':') {
        Some(i) => Some(t.skip(i + 1)),
        None => None,
    }
}

/// The text a token renders to, or `None` when its field has no value (or is unknown).
pub open spec fn token_value(
    t: Seq<char>,
    m: MetadataView,
    stem: Seq<char>,
    ext: Seq<char>,
) -> Option<Seq<char>> {
    match field_text(token_name(t), m, stem, ext) {
        Some(x) => Some(formatted(x, token_spec(t))),
        None => None,
    }
}

/// Renders the tokens of `s`: each `{` that has a later `}` starts a token that is replaced
/// by its value (or by nothing); every other character is kept. The flag tells whether some
/// token had a value.
pub open spec fn render_tokens(
    s: Seq<char>,
    m: MetadataView,
    stem: Seq<char>,
    ext: Seq<char>,
) -> (Seq<char>, bool)
    decreases s.len(),
{
    if s.len() == 0 {
        (Seq::<char>::empty(), false)
    } else if s[0] == '{' && occurs(s.skip(1), '}') {
        let e = match first_pos(s.skip(1), '}') {
            Some(e) => e,
            None => 0,
        };
        if 0 <= e && e + 2 <= s.len() {
            let rest = render_tokens(s.skip(e + 2), m, stem, ext);
            match token_value(s.subrange(1, e + 1), m, stem, ext) {
                Some(v) => (v + rest.0, true),
                None => rest,
            }
        } else {
            (Seq::<char>::empty(), false)
        }
    } else {
        let rest = render_tokens(s.skip(1), m, stem, ext);
        (seq![s[0]] + rest.0, rest.1)
    }
}

/// The first block of `s`: the first `[` and the first `]` after it.
pub open spec fn first_block(s: Seq<char>) -> Option<(int, int)> {
    match first_pos(s, '[') {
        Some(st) => match first_pos(s.skip(st + 1), ']') {
            Some(r) => Some((st, st + 1 + r)),
            None => None,
        },
        None => None,
    }
}

/// `s` with its first block replaced by the rendered body when a field in it has a value,
/// and by nothing otherwise.
pub open spec fn expand_block(
    s: Seq<char>,
    st: int,
    en: int,
    m: MetadataView,
    stem: Seq<char>,
    ext: Seq<char>,
) -> Seq<char> {
    let body = render_tokens(s.subrange(st + 1, en), m, stem, ext);
    s.take(st) + (if body.1 {
        body.0
    } else {
        Seq::<char>::empty()
    }) + s.skip(en + 1)
}

/// Replaces blocks, the first one each time and rescanning from the start, until no complete
/// block remains or `fuel` rounds are spent.
pub open spec fn expand_blocks(
    s: Seq<char>,
    fuel: nat,
    m: MetadataView,
    stem: Seq<char>,
    ext: Seq<char>,
) -> Seq<char>
    decreases fuel,
{
    if fuel == 0 {
        s
    } else {
        match first_block(s) {
            Some((st, en)) => expand_blocks(expand_block(s, st, en, m, stem, ext), (fuel - 1) as nat, m, stem, ext),
            None => s,
        }
    }
}

/// The rendered template: blocks are expanded (for up to `u64::MAX` rounds, far beyond any
/// real template), then the remaining tokens are rendered.
pub open spec fn rendered(
    template: Seq<char>,
    m: MetadataView,
    stem: Seq<char>,
    ext: Seq<char>,
) -> Seq<char> {
    render_tokens(expand_blocks(template, u64::MAX as nat, m, stem, ext), m, stem, ext).0
}

fn opt_clone_chars(s: &Option<String>) -> (r: Option<Vec<char>>)
    ensures
        match r {
            Some(v) => opt_chars(*s) == Some(v@),
            None => opt_chars(*s) is None,
        },
{
    match s {
        Some(t) => Some(chars_of(t.as_str())),
        None => None,
    }
}

fn field_text_exec(
    name: &Vec<char>,
    m: &TrackMetadata,
    stem: &Vec<char>,
    ext: &Vec<char>,
) -> (r: Option<Vec<char>>)
    ensures
        match r {
            Some(v) => field_text(name@, m@, stem@, ext@) == Some(v@),
            None => field_text(name@, m@, stem@, ext@) is None,
        },
{
    if chars_equal_str(name, "artist") {
        opt_clone_chars(&m.artist)
    } else if chars_equal_str(name, "album_artist") {
        match &m.album_artist {
            Some(a) => Some(chars_of(a.as_str())),
            None => opt_clone_chars(&m.artist),
        }
    } else if chars_equal_str(name, "album") {
        opt_clone_chars(&m.album)
    } else if chars_equal_str(name, "title") {
        match &m.title {
            Some(t) => Some(chars_of(t.as_str())),
            None => Some(stem.clone()),
        }
    } else if chars_equal_str(name, "source_stem") {
        Some(stem.clone())
    } else if chars_equal_str(name, "extension") {
        Some(ext.clone())
    } else if chars_equal_str(name, "track_no") {
        match m.track_no {
            Some(n) => Some(decimal_chars(n as u64)),
            None => None,
        }
    } else if chars_equal_str(name, "disc_no") {
        match m.disc_no {
            Some(n) => Some(decimal_chars(n as u64)),
            None => None,
        }
    } else if chars_equal_str(name, "year") {
        match m.year {
            Some(y) => Some(decimal_chars_i32(y)),
            None => None,
        }
    } else {
        None
    }
}

fn trim_end_d_len(s: &Vec<char>, from: usize) -> (n: usize)
    requires
        from <= s.len(),
    ensures
        from <= n <= s.len(),
        s@.subrange(from as int, n as int) == trim_end_d(s@.skip(from as int)),
{
    let mut n = s.len();
    assert(s@.subrange(from as int, n as int) == s@.skip(from as int));
    while n > from && s[n - 1] == 'd'
        invariant
            from <= n <= s.len(),
            trim_end_d(s@.subrange(from as int, n as int)) == trim_end_d(s@.skip(from as int)),
        decreases n,
    {
        assert(s@.subrange(from as int, n as int).drop_last() == s@.subrange(
            from as int,
            n - 1,
        ));
        n -= 1;
    }
    n
}

fn formatted_exec(text: Vec<char>, spec: Option<Vec<char>>) -> (r: Vec<char>)
    ensures
        r@ == formatted(
            text@,
            match spec {
                Some(v) => Some(v@),
                None => None,
            },
        ),
{
    match spec {
        Some(sp) => {
            match parse_unsigned_chars(&text, u32::MAX as u64) {
                Some(n) => {
                    if sp.len() > 0 && sp[0] == '0' {
                        let end = trim_end_d_len(&sp, 1);
                        let width_text = sub_chars(&sp, 1, end);
                        match parse_unsigned_chars(&width_text, usize::MAX as u64) {
                            Some(w) => {
                                let digits = decimal_chars(n);
                                zero_pad(&digits, w)
                            },
                            None => text,
                        }
                    } else {
                        text
                    }
                },
                None => text,
            }
        },
        None => text,
    }
}

fn token_value_exec(
    tok: &Vec<char>,
    m: &TrackMetadata,
    stem: &Vec<char>,
    ext: &Vec<char>,
) -> (r: Option<Vec<char>>)
    ensures
        match r {
            Some(v) => token_value(tok@, m@, stem@, ext@) == Some(v@),
            None => token_value(tok@, m@, stem@, ext@) is None,
        },
{
    assert(tok@.skip(0) == tok@);
    let (name, spec) = match find_from(tok, 0, ':') {
        Some(p) => {
            proof {
                lemma_first_pos(tok@, ':', p as int);
            }
            (sub_chars(tok, 0, p), Some(sub_chars(tok, p + 1, tok.len())))
        },
        None => (tok.clone(), None),
    };
    assert(name@ == token_name(tok@));
    match field_text_exec(&name, m, stem, ext) {
        Some(text) => Some(formatted_exec(text, spec)),
        None => None,
    }
}

proof fn lemma_skip_skip(s: Seq<char>, a: int, b: int)
    requires
        0 <= a,
        0 <= b,
        a + b <= s.len(),
    ensures
        s.skip(a).skip(b) == s.skip(a + b),
{
    assert(s.skip(a).skip(b) =~= s.skip(a + b));
}

/// Renders the tokens of `s` (see `render_tokens`).
fn render_tokens_exec(
    s: &Vec<char>,
    m: &TrackMetadata,
    stem: &Vec<char>,
    ext: &Vec<char>,
) -> (r: (Vec<char>, bool))
    ensures
        (r.0@, r.1) == render_tokens(s@, m@, stem@, ext@),
{
    let mut out: Vec<char> = Vec::new();
    let mut used = false;
    let mut i: usize = 0;
    assert(s@.skip(0) == s@);
    while i < s.len()
        invariant
            i <= s.len(),
            render_tokens(s@, m@, stem@, ext@).0 == out@ + render_tokens(
                s@.skip(i as int),
                m@,
                stem@,
                ext@,
            ).0,
            render_tokens(s@, m@, stem@, ext@).1 == (used || render_tokens(
                s@.skip(i as int),
                m@,
                stem@,
                ext@,
            ).1),
        decreases s.len() - i,
    {
        let ghost t = s@.skip(i as int);
        assert(t[0] == s@[i as int]);
        proof {
            lemma_skip_skip(s@, i as int, 1);
        }
        if s[i] == '{' {
            match find_from(s, i + 1, '}') {
                Some(close) => {
                    let ghost e = close - (i + 1);
                    proof {
                        lemma_first_pos(t.skip(1), '}', e);
                        assert(occurs(t.skip(1), '}'));
                        lemma_skip_skip(s@, i as int, e + 2);
                        assert(t.subrange(1, e + 1) =~= s@.subrange(i + 1, close as int));
                    }
                    let tok = sub_chars(s, i + 1, close);
                    match token_value_exec(&tok, m, stem, ext) {
                        Some(v) => {
                            let ghost before = out@;
                            append_chars(&mut out, &v);
                            used = true;
                            assert(out@ + render_tokens(s@.skip(close + 1), m@, stem@, ext@).0
                                == before + (v@ + render_tokens(
                                s@.skip(close + 1),
                                m@,
                                stem@,
                                ext@,
                            ).0));
                        },
                        None => {},
                    }
                    i = close + 1;
                    continue ;
                },
                None => {},
            }
        }
        let ghost before = out@;
        out.push(s[i]);
        assert(out@ + render_tokens(s@.skip(i + 1), m@, stem@, ext@).0 == before + (seq![s@[i as int]]
            + render_tokens(s@.skip(i + 1), m@, stem@, ext@).0));
        i += 1;
    }
    assert(s@.skip(s.len() as int) =~= Seq::<char>::empty());
    assert(out@ + Seq::<char>::empty() == out@);
    (out, used)
}

/// Renders a naming template for one track: `[...]` blocks are kept (rendered) only when one
/// of their fields has a value, then `{field}` tokens are replaced by their values.
pub fn render_template(
    template: &str,
    values: &TrackMetadata,
    source_stem: &str,
    extension: &str,
) -> (r: String)
    ensures
        r@ == rendered(template@, values@, source_stem@, extension@),
{
    let stem = chars_of(source_stem);
    let ext = chars_of(extension);
    let mut remaining = chars_of(template);
    let mut rounds: u64 = 0;
    while rounds < u64::MAX
        invariant
            expand_blocks(remaining@, (u64::MAX - rounds) as nat, values@, stem@, ext@)
                == expand_blocks(template@, u64::MAX as nat, values@, stem@, ext@),
        ensures
            remaining@ == expand_blocks(template@, u64::MAX as nat, values@, stem@, ext@),
        decreases u64::MAX - rounds,
    {
        let ghost fuel = (u64::MAX - rounds) as nat;
        assert(remaining@.skip(0) == remaining@);
        let start = match find_from(&remaining, 0, '[') {
            Some(p) => p,
            None => {
                assert(first_block(remaining@) is None);
                assert(expand_blocks(remaining@, fuel, values@, stem@, ext@) == remaining@);
                break ;
            },
        };
        proof {
            lemma_first_pos(remaining@, '[', start as int);
        }
        let end = match find_from(&remaining, start + 1, ']') {
            Some(p) => p,
            None => {
                assert(first_block(remaining@) is None);
                assert(expand_blocks(remaining@, fuel, values@, stem@, ext@) == remaining@);
                break ;
            },
        };
        proof {
            lemma_first_pos(remaining@.skip(start + 1), ']', end - (start + 1));
            assert(first_block(remaining@) == Some((start as int, end as int)));
        }
        let body = sub_chars(&remaining, start + 1, end);
        let (rendered_body, used) = render_tokens_exec(&body, values, &stem, &ext);
        let mut next = sub_chars(&remaining, 0, start);
        if used {
            append_chars(&mut next, &rendered_body);
        }
        let tail = sub_chars(&remaining, end + 1, remaining.len());
        append_chars(&mut next, &tail);
        assert(next@ =~= expand_block(remaining@, start as int, end as int, values@, stem@, ext@));
        remaining = next;
        rounds += 1;
    }
    let (out, _) = render_tokens_exec(&remaining, values, &stem, &ext);
    string_of(&out)
}

/// What a template made of a single `{name}` token (a name without `:`, `[` or `]`)
/// renders to: the token's field text, or nothing when the field has no value.
proof fn lemma_single_token(name: Seq<char>, m: MetadataView, stem: Seq<char>, ext: Seq<char>)
    requires
        forall|i: int| 0 <= i < name.len() ==> name[i] != ':' && name[i] != '[' && name[i] != ']'
            && name[i] != '{' && name[i] != '}',
    ensures
        rendered(seq!['{'] + name + seq!['}'], m, stem, ext) == match field_text(name, m, stem, ext) {
            Some(x) => x,
            None => Seq::<char>::empty(),
        },
{
    let t = seq!['{'] + name + seq!['}'];
    let n: int = name.len() as int;
    assert(!occurs(t, '[')) by {
        assert forall|i: int| 0 <= i < t.len() implies t[i] != '[' by {
            if 0 < i <= n {
                assert(t[i] == name[i - 1]);
            }
        }
    }
    assert(first_block(t) is None);
    assert(expand_blocks(t, u64::MAX as nat, m, stem, ext) == t);
    let rest = t.skip(1);
    assert(rest =~= name + seq!['}']);
    assert(is_first(rest, '}', n)) by {
        assert forall|k: int| 0 <= k < n implies rest[k] != '}' by {
            assert(rest[k] == name[k]);
        }
    }
    lemma_first_pos(rest, '}', n);
    assert(occurs(rest, '}'));
    assert(t.subrange(1, n + 1) =~= name);
    assert(t.skip(n + 2) =~= Seq::<char>::empty());
    assert(!occurs(name, ':')) by {
        assert forall|i: int| 0 <= i < name.len() implies name[i] != ':' by {}
    }
    assert(token_name(name) == name);
    assert(token_spec(name) is None);
    assert(t[0] == '{');
    assert(first_pos(t.skip(1), '}') == Some(n));
    assert(render_tokens(t.skip(n + 2), m, stem, ext) == (Seq::<char>::empty(), false));
    assert(formatted(name, None) == name);
    assert(token_value(t.subrange(1, n + 1), m, stem, ext) == match field_text(name, m, stem, ext) {
        Some(x) => Some(formatted(x, None)),
        None => None,
    });
    let r = render_tokens(t, m, stem, ext);
    match field_text(name, m, stem, ext) {
        Some(x) => {
            assert(r.0 == x + Seq::<char>::empty());
            assert(x + Seq::<char>::empty() =~= x);
        },
        None => {},
    }
}

/// `{artist}` renders exactly the track's artist tag (nothing when it has none), whatever
/// its album artist, title or file name.
pub proof fn law_artist_token_is_the_artist_tag(m: MetadataView, stem: Seq<char>, ext: Seq<char>)
    ensures
        rendered("{artist}"@, m, stem, ext) == match m.artist {
            Some(a) => a,
            None => Seq::<char>::empty(),
        },
{
    reveal_strlit("{artist}");
    reveal_strlit("artist");
    assert("{artist}"@ =~= seq!['{'] + "artist"@ + seq!['}']);
    lemma_single_token("artist"@, m, stem, ext);
}

/// `{album_artist}` renders the album artist tag, and the artist tag when there is no album
/// artist.
pub proof fn law_album_artist_token_falls_back_to_artist(m: MetadataView, stem: Seq<char>, ext: Seq<char>)
    ensures
        rendered("{album_artist}"@, m, stem, ext) == match (m.album_artist, m.artist) {
            (Some(a), _) => a,
            (None, Some(a)) => a,
            (None, None) => Seq::<char>::empty(),
        },
{
    reveal_strlit("{album_artist}");
    reveal_strlit("album_artist");
    reveal_strlit("artist");
    assert("{album_artist}"@ =~= seq!['{'] + "album_artist"@ + seq!['}']);
    assert("album_artist"@ != "artist"@);
    lemma_single_token("album_artist"@, m, stem, ext);
}

/// Two tracks that agree on the artist tag render `{artist}` alike, whatever their other
/// tags.
pub proof fn law_artist_token_ignores_other_tags(
    a: MetadataView,
    b: MetadataView,
    stem: Seq<char>,
    ext: Seq<char>,
)
    requires
        a.artist == b.artist,
    ensures
        rendered("{artist}"@, a, stem, ext) == rendered("{artist}"@, b, stem, ext),
{
    law_artist_token_is_the_artist_tag(a, stem, ext);
    law_artist_token_is_the_artist_tag(b, stem, ext);
}

/// `{album}` renders exactly the album tag (nothing when there is none).
pub proof fn law_album_token_is_the_album_tag(m: MetadataView, stem: Seq<char>, ext: Seq<char>)
    ensures
        rendered("{album}"@, m, stem, ext) == match m.album {
            Some(a) => a,
            None => Seq::<char>::empty(),
        },
{
    reveal_strlit("{album}");
    reveal_strlit("album");
    reveal_strlit("artist");
    reveal_strlit("album_artist");
    assert("{album}"@ =~= seq!['{'] + "album"@ + seq!['}']);
    lemma_single_token("album"@, m, stem, ext);
}

/// `{title}` renders the title tag, and the source file's stem when there is none.
pub proof fn law_title_token_falls_back_to_the_stem(m: MetadataView, stem: Seq<char>, ext: Seq<char>)
    ensures
        rendered("{title}"@, m, stem, ext) == match m.title {
            Some(t) => t,
            None => stem,
        },
{
    reveal_strlit("{title}");
    reveal_strlit("title");
    reveal_strlit("artist");
    reveal_strlit("album_artist");
    reveal_strlit("album");
    assert("{title}"@ =~= seq!['{'] + "title"@ + seq!['}']);
    assert("title"@ != "album"@) by {
        assert("title"@[0] != "album"@[0]);
    }
    assert(field_text("title"@, m, stem, ext) == match m.title {
        Some(t) => Some(t),
        None => Some(stem),
    });
    lemma_single_token("title"@, m, stem, ext);
}

} // verus!
