use vstd::prelude::*;

use crate::error::{Error, Ganzu};
use crate::file::{FileSnapshot, SnapshotV};
use crate::filter::{FilterAction, FilterActionV};
use crate::manifest::{
    files_view, Doc, DocV, FileMatch, FileMatchV, Matches, MatchesV, Meta, MetaV,
};
use crate::scan::{
    all_word_chars, lemma_scan_one, lemma_scan_quoted, lemma_scan_seq_app, lemma_scan_word_sep,
    no_quote_char, scan, scan_init, scan_seq, spec_scan, tokens_view, ScanMode, ScanState, Token,
    TokenV,
};
use crate::text::{
    i64_to_string, is_digit_char, lemma_digit_char_vals, lemma_i64_digits_roundtrip,
    lemma_u64_digits_roundtrip, parse_i64, parse_u64, spec_i64_digits, spec_parse_i64,
    spec_parse_u64, spec_u64_digits, u64_to_string,
};

verus! {

// ---------------------------------------------------------------------------
// Canonical rendering
// ---------------------------------------------------------------------------

/// The text of one `key="value"` property.
pub open spec fn spec_render_prop(key: Seq<char>, val: Seq<char>) -> Seq<char> {
    key + "=\""@ + val + "\""@
}

/// The text of the `meta` line.
pub open spec fn spec_render_meta(m: MetaV) -> Seq<char> {
    "meta "@ + spec_render_prop("version"@, m.version) + " "@ + spec_render_prop(
        "created"@,
        spec_u64_digits(m.created as nat),
    ) + "\n"@
}

/// The text of an action node.
pub open spec fn spec_render_action(a: FilterActionV) -> Seq<char> {
    match a {
        FilterActionV::Move { dest } => "move "@ + spec_render_prop("dest"@, dest),
        FilterActionV::Copy { dest } => "copy "@ + spec_render_prop("dest"@, dest),
    }
}

/// The text of one `files` block.
pub open spec fn spec_render_entry(e: FileMatchV) -> Seq<char> {
    "files {\n"@ + "snapshot "@ + spec_render_prop("input_name"@, e.snapshot.input_name) + " "@
        + spec_render_prop("absolute_path"@, e.snapshot.absolute_path) + " "@ + spec_render_prop(
        "last_mtime"@,
        spec_i64_digits(e.snapshot.last_mtime),
    ) + " "@ + spec_render_prop("mimetype"@, e.snapshot.mimetype) + "\n"@ + "action {\n"@
        + spec_render_action(e.action) + "\n}\n"@ + "}\n"@
}

/// The text of all `files` blocks, in order.
pub open spec fn spec_render_entries(es: Seq<FileMatchV>) -> Seq<char>
    decreases es.len(),
{
    if es.len() == 0 {
        Seq::empty()
    } else {
        spec_render_entry(es.first()) + spec_render_entries(es.drop_first())
    }
}

/// The canonical text of a whole manifest document.
pub open spec fn spec_render_doc(d: DocV) -> Seq<char> {
    spec_render_meta(d.meta) + "matches {\n"@ + spec_render_entries(d.matches.files) + "}\n"@
}

/// Appending one entry extends the rendered entries on the right.
pub proof fn lemma_render_entries_push(es: Seq<FileMatchV>, e: FileMatchV)
    ensures
        spec_render_entries(es.push(e)) == spec_render_entries(es) + spec_render_entry(e),
    decreases es.len(),
{
    if es.len() == 0 {
        assert(es.push(e).first() == e);
        assert(es.push(e).drop_first() =~= Seq::<FileMatchV>::empty());
        assert(spec_render_entries(Seq::<FileMatchV>::empty()) == Seq::<char>::empty());
        assert(spec_render_entries(es) + spec_render_entry(e) =~= spec_render_entry(e));
        assert(spec_render_entries(es.push(e)) =~= spec_render_entry(e));
    } else {
        assert(es.push(e).first() == es.first());
        assert(es.push(e).drop_first() =~= es.drop_first().push(e));
        lemma_render_entries_push(es.drop_first(), e);
        assert(spec_render_entry(es.first()) + (spec_render_entries(es.drop_first())
            + spec_render_entry(e)) =~= (spec_render_entry(es.first()) + spec_render_entries(
            es.drop_first(),
        )) + spec_render_entry(e));
    }
}

// ---------------------------------------------------------------------------
// The token sequence of a rendered document
// ---------------------------------------------------------------------------

/// The three tokens of one property.
pub open spec fn tokens_of_prop(key: Seq<char>, val: Seq<char>) -> Seq<TokenV> {
    seq![TokenV::Word(key), TokenV::Equals, TokenV::Str(val)]
}

/// The tokens of the `meta` line.
pub open spec fn tokens_of_meta(m: MetaV) -> Seq<TokenV> {
    seq![TokenV::Word("meta"@)] + tokens_of_prop("version"@, m.version) + tokens_of_prop(
        "created"@,
        spec_u64_digits(m.created as nat),
    )
}

/// The keyword of an action variant.
pub open spec fn action_verb(a: FilterActionV) -> Seq<char> {
    match a {
        FilterActionV::Move { .. } => "move"@,
        FilterActionV::Copy { .. } => "copy"@,
    }
}

/// The tokens of one `files` block (always 23 of them).
pub open spec fn tokens_of_entry(e: FileMatchV) -> Seq<TokenV> {
    seq![TokenV::Word("files"@), TokenV::LBrace, TokenV::Word("snapshot"@)] + tokens_of_prop(
        "input_name"@,
        e.snapshot.input_name,
    ) + tokens_of_prop("absolute_path"@, e.snapshot.absolute_path) + tokens_of_prop(
        "last_mtime"@,
        spec_i64_digits(e.snapshot.last_mtime),
    ) + tokens_of_prop("mimetype"@, e.snapshot.mimetype) + seq![
        TokenV::Word("action"@),
        TokenV::LBrace,
        TokenV::Word(action_verb(e.action)),
    ] + tokens_of_prop("dest"@, e.action.dest()) + seq![TokenV::RBrace, TokenV::RBrace]
}

/// The tokens of all `files` blocks, in order.
pub open spec fn tokens_of_entries(es: Seq<FileMatchV>) -> Seq<TokenV>
    decreases es.len(),
{
    if es.len() == 0 {
        Seq::empty()
    } else {
        tokens_of_entry(es.first()) + tokens_of_entries(es.drop_first())
    }
}

/// The tokens of a whole document.
pub open spec fn tokens_of_doc(d: DocV) -> Seq<TokenV> {
    tokens_of_meta(d.meta) + seq![TokenV::Word("matches"@), TokenV::LBrace] + tokens_of_entries(
        d.matches.files,
    ) + seq![TokenV::RBrace]
}

// ---------------------------------------------------------------------------
// Facts about the fixed words of the format
// ---------------------------------------------------------------------------

/// The keyword literals of the format are nonempty bare words, and the two
/// action keywords differ.
pub proof fn lemma_keyword_facts()
    ensures
        "meta"@.len() == 4 && all_word_chars("meta"@),
        "version"@.len() == 7 && all_word_chars("version"@),
        "created"@.len() == 7 && all_word_chars("created"@),
        "matches"@.len() == 7 && all_word_chars("matches"@),
        "files"@.len() == 5 && all_word_chars("files"@),
        "snapshot"@.len() == 8 && all_word_chars("snapshot"@),
        "input_name"@.len() == 10 && all_word_chars("input_name"@),
        "absolute_path"@.len() == 13 && all_word_chars("absolute_path"@),
        "last_mtime"@.len() == 10 && all_word_chars("last_mtime"@),
        "mimetype"@.len() == 8 && all_word_chars("mimetype"@),
        "dest"@.len() == 4 && all_word_chars("dest"@),
        "move"@.len() == 4 && all_word_chars("move"@),
        "copy"@.len() == 4 && all_word_chars("copy"@),
        "move"@ != "copy"@,
{
    reveal_strlit("meta");
    reveal_strlit("version");
    reveal_strlit("created");
    reveal_strlit("matches");
    reveal_strlit("files");
    reveal_strlit("snapshot");
    reveal_strlit("input_name");
    reveal_strlit("absolute_path");
    reveal_strlit("last_mtime");
    reveal_strlit("mimetype");
    reveal_strlit("dest");
    reveal_strlit("move");
    reveal_strlit("copy");
    assert("move"@[0] == 'm' && "copy"@[0] == 'c');
}

/// The decimal rendering of an unsigned value carries no quote character.
pub proof fn lemma_u64_digits_no_quote(n: nat)
    ensures
        no_quote_char(spec_u64_digits(n)),
{
    lemma_u64_digits_roundtrip(n);
    lemma_digit_char_vals();
    assert forall|i: int|
        0 <= i < spec_u64_digits(n).len() implies #[trigger] spec_u64_digits(n)[i] != '"' by {
        assert(is_digit_char(spec_u64_digits(n)[i]));
    }
}

/// The decimal rendering of a signed value carries no quote character.
pub proof fn lemma_i64_digits_no_quote(v: int)
    requires
        i64::MIN <= v <= i64::MAX,
    ensures
        no_quote_char(spec_i64_digits(v)),
{
    lemma_digit_char_vals();
    if v < 0 {
        lemma_u64_digits_roundtrip((-v) as nat);
        let s = spec_i64_digits(v);
        let d = spec_u64_digits((-v) as nat);
        assert forall|i: int| 0 <= i < s.len() implies #[trigger] s[i] != '"' by {
            if i == 0 {
                assert(s[0] == '-');
            } else {
                assert(s[i] == d[i - 1]);
                assert(is_digit_char(d[i - 1]));
            }
        }
    } else {
        lemma_u64_digits_no_quote(v as nat);
    }
}

// ---------------------------------------------------------------------------
// Scanning a rendered document yields its token sequence
// ---------------------------------------------------------------------------

/// Scanning one rendered property from normal mode emits its three tokens
/// and returns to normal mode.
proof fn lemma_scan_prop(toks: Seq<TokenV>, key: Seq<char>, val: Seq<char>)
    requires
        key.len() >= 1,
        all_word_chars(key),
        no_quote_char(val),
    ensures
        scan_seq(ScanState { toks, mode: ScanMode::Normal }, spec_render_prop(key, val)) == (
        ScanState { toks: toks + tokens_of_prop(key, val), mode: ScanMode::Normal }),
{
    let st = ScanState { toks, mode: ScanMode::Normal };
    reveal_strlit("=\"");
    reveal_strlit("\"");
    let part1 = key + seq!['='];
    let part2 = (seq!['"'] + val) + seq!['"'];
    assert(spec_render_prop(key, val) =~= part1 + part2);
    lemma_scan_seq_app(st, part1, part2);
    lemma_scan_word_sep(toks, key, '=');
    let toks2 = toks.push(TokenV::Word(key)).push(TokenV::Equals);
    assert(scan_seq(st, part1) == (ScanState { toks: toks2, mode: ScanMode::Normal }));
    lemma_scan_quoted(toks2, val);
    assert(toks2.push(TokenV::Str(val)) =~= toks + tokens_of_prop(key, val));
}

/// Scanning `word {` plus a newline from normal mode emits the word and an
/// opening brace.
proof fn lemma_scan_open(toks: Seq<TokenV>, w: Seq<char>)
    requires
        w.len() >= 1,
        all_word_chars(w),
    ensures
        scan_seq(ScanState { toks, mode: ScanMode::Normal }, ((w + seq![' ']) + seq!['{'])
            + seq!['\n']) == (ScanState {
            toks: toks.push(TokenV::Word(w)).push(TokenV::LBrace),
            mode: ScanMode::Normal,
        }),
{
    let st = ScanState { toks, mode: ScanMode::Normal };
    lemma_scan_seq_app(st, (w + seq![' ']) + seq!['{'], seq!['\n']);
    lemma_scan_seq_app(st, w + seq![' '], seq!['{']);
    lemma_scan_word_sep(toks, w, ' ');
    let toks1 = toks.push(TokenV::Word(w));
    assert(scan_seq(st, w + seq![' ']) == (ScanState { toks: toks1, mode: ScanMode::Normal }));
    lemma_scan_one(ScanState { toks: toks1, mode: ScanMode::Normal }, '{');
    lemma_scan_one(
        ScanState { toks: toks1.push(TokenV::LBrace), mode: ScanMode::Normal },
        '\n',
    );
}

/// Scanning the rendered `meta` line from normal mode emits its tokens.
proof fn lemma_scan_meta(toks: Seq<TokenV>, m: MetaV)
    requires
        no_quote_char(m.version),
        0 <= m.created <= u64::MAX,
    ensures
        scan_seq(ScanState { toks, mode: ScanMode::Normal }, spec_render_meta(m)) == (ScanState {
            toks: toks + tokens_of_meta(m),
            mode: ScanMode::Normal,
        }),
{
    let st = ScanState { toks, mode: ScanMode::Normal };
    lemma_keyword_facts();
    lemma_u64_digits_no_quote(m.created as nat);
    reveal_strlit("meta ");
    reveal_strlit("meta");
    reveal_strlit(" ");
    reveal_strlit("\n");
    let p1 = spec_render_prop("version"@, m.version);
    let p2 = spec_render_prop("created"@, spec_u64_digits(m.created as nat));
    let w = "meta"@ + seq![' '];
    assert(spec_render_meta(m) =~= (((w + p1) + seq![' ']) + p2) + seq!['\n']);
    lemma_scan_seq_app(st, ((w + p1) + seq![' ']) + p2, seq!['\n']);
    lemma_scan_seq_app(st, (w + p1) + seq![' '], p2);
    lemma_scan_seq_app(st, w + p1, seq![' ']);
    lemma_scan_seq_app(st, w, p1);
    lemma_scan_word_sep(toks, "meta"@, ' ');
    let toks1 = toks.push(TokenV::Word("meta"@));
    assert(scan_seq(st, w) == (ScanState { toks: toks1, mode: ScanMode::Normal }));
    lemma_scan_prop(toks1, "version"@, m.version);
    let toks2 = toks1 + tokens_of_prop("version"@, m.version);
    lemma_scan_one(ScanState { toks: toks2, mode: ScanMode::Normal }, ' ');
    lemma_scan_prop(toks2, "created"@, spec_u64_digits(m.created as nat));
    let toks3 = toks2 + tokens_of_prop("created"@, spec_u64_digits(m.created as nat));
    lemma_scan_one(ScanState { toks: toks3, mode: ScanMode::Normal }, '\n');
    assert(toks3 =~= toks + tokens_of_meta(m));
}

/// Scanning one rendered `files` block from normal mode emits its tokens.
#[verifier::rlimit(100)]
#[verifier::spinoff_prover]
proof fn lemma_scan_entry(toks: Seq<TokenV>, e: FileMatchV)
    requires
        e.serializable(),
    ensures
        scan_seq(ScanState { toks, mode: ScanMode::Normal }, spec_render_entry(e)) == (ScanState {
            toks: toks + tokens_of_entry(e),
            mode: ScanMode::Normal,
        }),
{
    let st = ScanState { toks, mode: ScanMode::Normal };
    lemma_keyword_facts();
    lemma_i64_digits_no_quote(e.snapshot.last_mtime);
    reveal_strlit("files {\n");
    reveal_strlit("snapshot ");
    reveal_strlit("action {\n");
    reveal_strlit("move ");
    reveal_strlit("copy ");
    reveal_strlit("\n}\n");
    reveal_strlit("}\n");
    reveal_strlit("files");
    reveal_strlit("snapshot");
    reveal_strlit("action");
    reveal_strlit("move");
    reveal_strlit("copy");
    reveal_strlit(" ");
    reveal_strlit("\n");
    let pin = spec_render_prop("input_name"@, e.snapshot.input_name);
    let pap = spec_render_prop("absolute_path"@, e.snapshot.absolute_path);
    let pmt = spec_render_prop("last_mtime"@, spec_i64_digits(e.snapshot.last_mtime));
    let pmm = spec_render_prop("mimetype"@, e.snapshot.mimetype);
    let pact = spec_render_action(e.action);
    // Peel the pieces of the entry text from the right.
    let x1 = "files {\n"@;
    let x2 = x1 + "snapshot "@;
    let x3 = x2 + pin;
    let x4 = x3 + " "@;
    let x5 = x4 + pap;
    let x6 = x5 + " "@;
    let x7 = x6 + pmt;
    let x8 = x7 + " "@;
    let x9 = x8 + pmm;
    let x10 = x9 + "\n"@;
    let x11 = x10 + "action {\n"@;
    let x12 = x11 + pact;
    let x13 = x12 + "\n}\n"@;
    assert(spec_render_entry(e) == x13 + "}\n"@);
    lemma_scan_seq_app(st, x13, "}\n"@);
    lemma_scan_seq_app(st, x12, "\n}\n"@);
    lemma_scan_seq_app(st, x11, pact);
    lemma_scan_seq_app(st, x10, "action {\n"@);
    lemma_scan_seq_app(st, x9, "\n"@);
    lemma_scan_seq_app(st, x8, pmm);
    lemma_scan_seq_app(st, x7, " "@);
    lemma_scan_seq_app(st, x6, pmt);
    lemma_scan_seq_app(st, x5, " "@);
    lemma_scan_seq_app(st, x4, pap);
    lemma_scan_seq_app(st, x3, " "@);
    lemma_scan_seq_app(st, x2, pin);
    lemma_scan_seq_app(st, x1, "snapshot "@);
    // Now walk forward, piece by piece.
    assert(x1 =~= (("files"@ + seq![' ']) + seq!['{']) + seq!['\n']);
    lemma_scan_open(toks, "files"@);
    let t1 = toks.push(TokenV::Word("files"@)).push(TokenV::LBrace);
    assert(scan_seq(st, x1) == (ScanState { toks: t1, mode: ScanMode::Normal }));
    assert("snapshot "@ =~= "snapshot"@ + seq![' ']);
    lemma_scan_word_sep(t1, "snapshot"@, ' ');
    let t2 = t1.push(TokenV::Word("snapshot"@));
    assert(scan_seq(st, x2) == (ScanState { toks: t2, mode: ScanMode::Normal }));
    lemma_scan_prop(t2, "input_name"@, e.snapshot.input_name);
    let t3 = t2 + tokens_of_prop("input_name"@, e.snapshot.input_name);
    assert(scan_seq(st, x3) == (ScanState { toks: t3, mode: ScanMode::Normal }));
    assert(" "@ =~= seq![' ']);
    lemma_scan_one(ScanState { toks: t3, mode: ScanMode::Normal }, ' ');
    assert(scan_seq(st, x4) == (ScanState { toks: t3, mode: ScanMode::Normal }));
    lemma_scan_prop(t3, "absolute_path"@, e.snapshot.absolute_path);
    let t4 = t3 + tokens_of_prop("absolute_path"@, e.snapshot.absolute_path);
    assert(scan_seq(st, x5) == (ScanState { toks: t4, mode: ScanMode::Normal }));
    lemma_scan_one(ScanState { toks: t4, mode: ScanMode::Normal }, ' ');
    assert(scan_seq(st, x6) == (ScanState { toks: t4, mode: ScanMode::Normal }));
    lemma_scan_prop(t4, "last_mtime"@, spec_i64_digits(e.snapshot.last_mtime));
    let t5 = t4 + tokens_of_prop("last_mtime"@, spec_i64_digits(e.snapshot.last_mtime));
    assert(scan_seq(st, x7) == (ScanState { toks: t5, mode: ScanMode::Normal }));
    lemma_scan_one(ScanState { toks: t5, mode: ScanMode::Normal }, ' ');
    assert(scan_seq(st, x8) == (ScanState { toks: t5, mode: ScanMode::Normal }));
    lemma_scan_prop(t5, "mimetype"@, e.snapshot.mimetype);
    let t6 = t5 + tokens_of_prop("mimetype"@, e.snapshot.mimetype);
    assert(scan_seq(st, x9) == (ScanState { toks: t6, mode: ScanMode::Normal }));
    assert("\n"@ =~= seq!['\n']);
    lemma_scan_one(ScanState { toks: t6, mode: ScanMode::Normal }, '\n');
    assert(scan_seq(st, x10) == (ScanState { toks: t6, mode: ScanMode::Normal }));
    assert("action {\n"@ =~= (("action"@ + seq![' ']) + seq!['{']) + seq!['\n']);
    lemma_scan_open(t6, "action"@);
    let t7 = t6.push(TokenV::Word("action"@)).push(TokenV::LBrace);
    assert(scan_seq(st, x11) == (ScanState { toks: t7, mode: ScanMode::Normal }));
    // The action text: verb, then the dest property.
    let verb = action_verb(e.action);
    assert(pact =~= (verb + seq![' ']) + spec_render_prop("dest"@, e.action.dest())) by {
        match e.action {
            FilterActionV::Move { dest } => {
                assert("move "@ =~= "move"@ + seq![' ']);
            },
            FilterActionV::Copy { dest } => {
                assert("copy "@ =~= "copy"@ + seq![' ']);
            },
        }
    }
    let stp = ScanState { toks: t7, mode: ScanMode::Normal };
    lemma_scan_seq_app(stp, verb + seq![' '], spec_render_prop("dest"@, e.action.dest()));
    assert(verb.len() >= 1 && all_word_chars(verb)) by {
        match e.action {
            FilterActionV::Move { dest } => {},
            FilterActionV::Copy { dest } => {},
        }
    }
    lemma_scan_word_sep(t7, verb, ' ');
    let t8 = t7.push(TokenV::Word(verb));
    lemma_scan_prop(t8, "dest"@, e.action.dest());
    let t9 = t8 + tokens_of_prop("dest"@, e.action.dest());
    assert(scan_seq(st, x12) == (ScanState { toks: t9, mode: ScanMode::Normal }));
    assert("\n}\n"@ =~= (seq!['\n'] + seq!['}']) + seq!['\n']);
    let stc = ScanState { toks: t9, mode: ScanMode::Normal };
    lemma_scan_seq_app(stc, seq!['\n'] + seq!['}'], seq!['\n']);
    lemma_scan_seq_app(stc, seq!['\n'], seq!['}']);
    lemma_scan_one(stc, '\n');
    lemma_scan_one(stc, '}');
    let t10 = t9.push(TokenV::RBrace);
    lemma_scan_one(ScanState { toks: t10, mode: ScanMode::Normal }, '\n');
    assert(scan_seq(st, x13) == (ScanState { toks: t10, mode: ScanMode::Normal }));
    assert("}\n"@ =~= seq!['}'] + seq!['\n']);
    let std = ScanState { toks: t10, mode: ScanMode::Normal };
    lemma_scan_seq_app(std, seq!['}'], seq!['\n']);
    lemma_scan_one(std, '}');
    let t11 = t10.push(TokenV::RBrace);
    lemma_scan_one(ScanState { toks: t11, mode: ScanMode::Normal }, '\n');
    assert(scan_seq(st, spec_render_entry(e)) == (ScanState {
        toks: t11,
        mode: ScanMode::Normal,
    }));
    assert(t11 =~= toks + tokens_of_entry(e));
}

/// Scanning all rendered `files` blocks from normal mode emits their
/// tokens.
proof fn lemma_scan_entries(toks: Seq<TokenV>, es: Seq<FileMatchV>)
    requires
        forall|i: int| 0 <= i < es.len() ==> (#[trigger] es[i]).serializable(),
    ensures
        scan_seq(ScanState { toks, mode: ScanMode::Normal }, spec_render_entries(es)) == (
        ScanState { toks: toks + tokens_of_entries(es), mode: ScanMode::Normal }),
    decreases es.len(),
{
    let st = ScanState { toks, mode: ScanMode::Normal };
    if es.len() == 0 {
        assert(toks + tokens_of_entries(es) =~= toks);
    } else {
        lemma_scan_seq_app(st, spec_render_entry(es.first()), spec_render_entries(es.drop_first()));
        assert(es[0].serializable());
        lemma_scan_entry(toks, es.first());
        let t1 = toks + tokens_of_entry(es.first());
        assert(forall|i: int|
            0 <= i < es.drop_first().len() ==> (#[trigger] es.drop_first()[i]).serializable());
        lemma_scan_entries(t1, es.drop_first());
        assert((toks + tokens_of_entry(es.first())) + tokens_of_entries(es.drop_first()) =~= toks
            + tokens_of_entries(es));
    }
}

/// Scanning the canonical rendering of a serializable document yields
/// exactly its token sequence.
pub proof fn lemma_scan_render_doc(d: DocV)
    requires
        d.serializable(),
    ensures
        spec_scan(spec_render_doc(d)) == Some(tokens_of_doc(d)),
{
    let st = scan_init();
    lemma_keyword_facts();
    reveal_strlit("matches {\n");
    reveal_strlit("matches");
    reveal_strlit("}\n");
    let x1 = spec_render_meta(d.meta);
    let x2 = x1 + "matches {\n"@;
    let x3 = x2 + spec_render_entries(d.matches.files);
    assert(spec_render_doc(d) == x3 + "}\n"@);
    lemma_scan_seq_app(st, x3, "}\n"@);
    lemma_scan_seq_app(st, x2, spec_render_entries(d.matches.files));
    lemma_scan_seq_app(st, x1, "matches {\n"@);
    lemma_scan_meta(Seq::empty(), d.meta);
    let t1 = Seq::<TokenV>::empty() + tokens_of_meta(d.meta);
    assert(scan_seq(st, x1) == (ScanState { toks: t1, mode: ScanMode::Normal }));
    assert("matches {\n"@ =~= (("matches"@ + seq![' ']) + seq!['{']) + seq!['\n']);
    lemma_scan_open(t1, "matches"@);
    let t2 = t1.push(TokenV::Word("matches"@)).push(TokenV::LBrace);
    assert(scan_seq(st, x2) == (ScanState { toks: t2, mode: ScanMode::Normal }));
    lemma_scan_entries(t2, d.matches.files);
    let t3 = t2 + tokens_of_entries(d.matches.files);
    assert(scan_seq(st, x3) == (ScanState { toks: t3, mode: ScanMode::Normal }));
    assert("}\n"@ =~= seq!['}'] + seq!['\n']);
    let std = ScanState { toks: t3, mode: ScanMode::Normal };
    lemma_scan_seq_app(std, seq!['}'], seq!['\n']);
    lemma_scan_one(std, '}');
    let t4 = t3.push(TokenV::RBrace);
    lemma_scan_one(ScanState { toks: t4, mode: ScanMode::Normal }, '\n');
    assert(scan_seq(st, spec_render_doc(d)) == (ScanState { toks: t4, mode: ScanMode::Normal }));
    assert(t4 =~= tokens_of_doc(d));
}

// ---------------------------------------------------------------------------
// Parsing a token sequence
// ---------------------------------------------------------------------------

/// Parses one `key="value"` property at token position `i`.
pub open spec fn p_prop(ts: Seq<TokenV>, i: int, key: Seq<char>) -> Option<(Seq<char>, int)> {
    if 0 <= i && i + 3 <= ts.len() && ts[i] == TokenV::Word(key) && ts[i + 1] == TokenV::Equals {
        match ts[i + 2] {
            TokenV::Str(v) => Some((v, i + 3)),
            _ => None,
        }
    } else {
        None
    }
}

/// Parses the `meta` node at token position `i`.
pub open spec fn p_meta(ts: Seq<TokenV>, i: int) -> Option<(MetaV, int)> {
    if 0 <= i && i < ts.len() && ts[i] == TokenV::Word("meta"@) {
        match p_prop(ts, i + 1, "version"@) {
            Some((ver, j)) => match p_prop(ts, j, "created"@) {
                Some((ctext, k)) => match spec_parse_u64(ctext) {
                    Some(c) => Some((MetaV { version: ver, created: c as int }, k)),
                    None => None,
                },
                None => None,
            },
            None => None,
        }
    } else {
        None
    }
}

/// Parses a `snapshot` node at token position `i`.  The `mimetype` property
/// is optional; when absent the mimetype is empty.
pub open spec fn p_snapshot(ts: Seq<TokenV>, i: int) -> Option<(SnapshotV, int)> {
    if 0 <= i && i < ts.len() && ts[i] == TokenV::Word("snapshot"@) {
        match p_prop(ts, i + 1, "input_name"@) {
            Some((nm, j1)) => match p_prop(ts, j1, "absolute_path"@) {
                Some((ap, j2)) => match p_prop(ts, j2, "last_mtime"@) {
                    Some((mtext, j3)) => match spec_parse_i64(mtext) {
                        Some(mt) => {
                            let (mm, j4) = match p_prop(ts, j3, "mimetype"@) {
                                Some((v, j)) => (v, j),
                                None => (Seq::<char>::empty(), j3),
                            };
                            Some(
                                (
                                    SnapshotV {
                                        input_name: nm,
                                        absolute_path: ap,
                                        last_mtime: mt as int,
                                        mimetype: mm,
                                    },
                                    j4,
                                ),
                            )
                        },
                        None => None,
                    },
                    None => None,
                },
                None => None,
            },
            None => None,
        }
    } else {
        None
    }
}

/// Parses an `action` block at token position `i`.
pub open spec fn p_action(ts: Seq<TokenV>, i: int) -> Option<(FilterActionV, int)> {
    if 0 <= i && i + 3 <= ts.len() && ts[i] == TokenV::Word("action"@) && ts[i + 1]
        == TokenV::LBrace && (ts[i + 2] == TokenV::Word("move"@) || ts[i + 2] == TokenV::Word(
        "copy"@,
    )) {
        match p_prop(ts, i + 3, "dest"@) {
            Some((d, j)) => if j < ts.len() && ts[j] == TokenV::RBrace {
                if ts[i + 2] == TokenV::Word("move"@) {
                    Some((FilterActionV::Move { dest: d }, j + 1))
                } else {
                    Some((FilterActionV::Copy { dest: d }, j + 1))
                }
            } else {
                None
            },
            None => None,
        }
    } else {
        None
    }
}

/// Parses one `files` block at token position `i`.
pub open spec fn p_entry(ts: Seq<TokenV>, i: int) -> Option<(FileMatchV, int)> {
    if 0 <= i && i + 2 <= ts.len() && ts[i] == TokenV::Word("files"@) && ts[i + 1]
        == TokenV::LBrace {
        match p_snapshot(ts, i + 2) {
            Some((s, j)) => match p_action(ts, j) {
                Some((a, k)) => if k < ts.len() && ts[k] == TokenV::RBrace {
                    Some((FileMatchV { snapshot: s, action: a }, k + 1))
                } else {
                    None
                },
                None => None,
            },
            None => None,
        }
    } else {
        None
    }
}

pub proof fn lemma_p_snapshot_advances(ts: Seq<TokenV>, i: int)
    ensures
        p_snapshot(ts, i) matches Some(r) ==> i < r.1 <= ts.len(),
{
}

pub proof fn lemma_p_action_advances(ts: Seq<TokenV>, i: int)
    ensures
        p_action(ts, i) matches Some(r) ==> i < r.1 <= ts.len(),
{
}

pub proof fn lemma_p_entry_advances(ts: Seq<TokenV>, i: int)
    ensures
        p_entry(ts, i) matches Some(r) ==> i < r.1 <= ts.len(),
{
    lemma_p_snapshot_advances(ts, i + 2);
    if p_entry(ts, i) is Some {
        match p_snapshot(ts, i + 2) {
            Some((s, j)) => {
                lemma_p_action_advances(ts, j);
            },
            None => {},
        }
    }
}

/// Parses `files` blocks at token position `i` until the next token is not
/// the `files` keyword.
pub open spec fn p_entries(ts: Seq<TokenV>, i: int) -> Option<(Seq<FileMatchV>, int)>
    decreases ts.len() - i,
    when 0 <= i <= ts.len()
    via p_entries_dec
{
    if i < ts.len() && ts[i] == TokenV::Word("files"@) {
        match p_entry(ts, i) {
            Some((e, j)) => match p_entries(ts, j) {
                Some((es, k)) => Some((seq![e] + es, k)),
                None => None,
            },
            None => None,
        }
    } else {
        Some((Seq::empty(), i))
    }
}

#[via_fn]
proof fn p_entries_dec(ts: Seq<TokenV>, i: int) {
    lemma_p_entry_advances(ts, i);
}

/// Parses a whole document: the `meta` node, then an optional `matches`
/// block, with nothing after it.
pub open spec fn p_doc(ts: Seq<TokenV>) -> Option<DocV> {
    match p_meta(ts, 0) {
        Some((m, i)) => if i == ts.len() {
            Some(DocV { meta: m, matches: MatchesV { files: Seq::empty() } })
        } else if i + 2 <= ts.len() && ts[i] == TokenV::Word("matches"@) && ts[i + 1]
            == TokenV::LBrace {
            match p_entries(ts, i + 2) {
                Some((es, j)) => if j < ts.len() && ts[j] == TokenV::RBrace && j + 1 == ts.len() {
                    Some(DocV { meta: m, matches: MatchesV { files: es } })
                } else {
                    None
                },
                None => None,
            }
        } else {
            None
        },
        None => None,
    }
}

/// What deserializing a text yields: tokenize, then parse.
pub open spec fn spec_deserialize(s: Seq<char>) -> Option<DocV> {
    match spec_scan(s) {
        Some(ts) => p_doc(ts),
        None => None,
    }
}

// ---------------------------------------------------------------------------
// Parsing the token sequence of a rendered document yields the document
// ---------------------------------------------------------------------------

proof fn lemma_tokens_of_meta_facts(m: MetaV)
    ensures
        tokens_of_meta(m).len() == 7,
        tokens_of_meta(m)[0] == TokenV::Word("meta"@),
        tokens_of_meta(m)[1] == TokenV::Word("version"@),
        tokens_of_meta(m)[2] == TokenV::Equals,
        tokens_of_meta(m)[3] == TokenV::Str(m.version),
        tokens_of_meta(m)[4] == TokenV::Word("created"@),
        tokens_of_meta(m)[5] == TokenV::Equals,
        tokens_of_meta(m)[6] == TokenV::Str(spec_u64_digits(m.created as nat)),
{
}

proof fn lemma_tokens_of_entry_facts(e: FileMatchV)
    ensures
        tokens_of_entry(e).len() == 23,
        tokens_of_entry(e)[0] == TokenV::Word("files"@),
        tokens_of_entry(e)[1] == TokenV::LBrace,
        tokens_of_entry(e)[2] == TokenV::Word("snapshot"@),
        tokens_of_entry(e)[3] == TokenV::Word("input_name"@),
        tokens_of_entry(e)[4] == TokenV::Equals,
        tokens_of_entry(e)[5] == TokenV::Str(e.snapshot.input_name),
        tokens_of_entry(e)[6] == TokenV::Word("absolute_path"@),
        tokens_of_entry(e)[7] == TokenV::Equals,
        tokens_of_entry(e)[8] == TokenV::Str(e.snapshot.absolute_path),
        tokens_of_entry(e)[9] == TokenV::Word("last_mtime"@),
        tokens_of_entry(e)[10] == TokenV::Equals,
        tokens_of_entry(e)[11] == TokenV::Str(spec_i64_digits(e.snapshot.last_mtime)),
        tokens_of_entry(e)[12] == TokenV::Word("mimetype"@),
        tokens_of_entry(e)[13] == TokenV::Equals,
        tokens_of_entry(e)[14] == TokenV::Str(e.snapshot.mimetype),
        tokens_of_entry(e)[15] == TokenV::Word("action"@),
        tokens_of_entry(e)[16] == TokenV::LBrace,
        tokens_of_entry(e)[17] == TokenV::Word(action_verb(e.action)),
        tokens_of_entry(e)[18] == TokenV::Word("dest"@),
        tokens_of_entry(e)[19] == TokenV::Equals,
        tokens_of_entry(e)[20] == TokenV::Str(e.action.dest()),
        tokens_of_entry(e)[21] == TokenV::RBrace,
        tokens_of_entry(e)[22] == TokenV::RBrace,
{
}

proof fn lemma_tokens_of_entries_len(es: Seq<FileMatchV>)
    ensures
        tokens_of_entries(es).len() == 23 * es.len(),
    decreases es.len(),
{
    if es.len() > 0 {
        lemma_tokens_of_entry_facts(es.first());
        lemma_tokens_of_entries_len(es.drop_first());
    }
}

/// A `files` block standing at position `i` parses to its entry.
proof fn lemma_p_entry_at(ts: Seq<TokenV>, i: int, e: FileMatchV)
    requires
        0 <= i,
        i + 23 <= ts.len(),
        ts.subrange(i, i + 23) == tokens_of_entry(e),
        e.serializable(),
    ensures
        p_entry(ts, i) == Some((e, i + 23)),
{
    lemma_tokens_of_entry_facts(e);
    lemma_keyword_facts();
    assert forall|k: int| 0 <= k < 23 implies ts[i + k] == tokens_of_entry(e)[k] by {
        assert(ts.subrange(i, i + 23)[k] == ts[i + k]);
    }
    lemma_i64_digits_roundtrip(e.snapshot.last_mtime as i64);
    assert(spec_parse_i64(spec_i64_digits(e.snapshot.last_mtime)) == Some(
        e.snapshot.last_mtime as i64,
    ));
    assert(p_prop(ts, i + 3, "input_name"@) == Some((e.snapshot.input_name, i + 6)));
    assert(p_prop(ts, i + 6, "absolute_path"@) == Some((e.snapshot.absolute_path, i + 9)));
    assert(p_prop(ts, i + 9, "last_mtime"@) == Some(
        (spec_i64_digits(e.snapshot.last_mtime), i + 12),
    ));
    assert(p_prop(ts, i + 12, "mimetype"@) == Some((e.snapshot.mimetype, i + 15)));
    let parsed_snap = SnapshotV {
        input_name: e.snapshot.input_name,
        absolute_path: e.snapshot.absolute_path,
        last_mtime: (e.snapshot.last_mtime as i64) as int,
        mimetype: e.snapshot.mimetype,
    };
    assert(parsed_snap =~= e.snapshot);
    assert(p_snapshot(ts, i + 2) == Some((e.snapshot, i + 15)));
    assert(p_prop(ts, i + 18, "dest"@) == Some((e.action.dest(), i + 21)));
    match e.action {
        FilterActionV::Move { dest } => {
            assert(ts[i + 17] == TokenV::Word("move"@));
            assert(p_action(ts, i + 15) == Some((FilterActionV::Move { dest }, i + 22)));
        },
        FilterActionV::Copy { dest } => {
            assert(ts[i + 17] == TokenV::Word("copy"@));
            assert(ts[i + 17] != TokenV::Word("move"@));
            assert(p_action(ts, i + 15) == Some((FilterActionV::Copy { dest }, i + 22)));
        },
    }
    assert(p_action(ts, i + 15) == Some((e.action, i + 22)));
    assert(ts[i + 22] == TokenV::RBrace);
    let parsed_entry = FileMatchV { snapshot: e.snapshot, action: e.action };
    assert(parsed_entry =~= e);
}

/// A run of `files` blocks followed by a closing brace parses to exactly
/// those entries.
proof fn lemma_p_entries_at(ts: Seq<TokenV>, i: int, es: Seq<FileMatchV>)
    requires
        0 <= i,
        i + 23 * es.len() < ts.len(),
        ts.subrange(i, i + 23 * es.len()) == tokens_of_entries(es),
        ts[i + 23 * es.len()] == TokenV::RBrace,
        forall|k: int| 0 <= k < es.len() ==> (#[trigger] es[k]).serializable(),
    ensures
        p_entries(ts, i) == Some((es, i + 23 * es.len())),
    decreases es.len(),
{
    lemma_tokens_of_entries_len(es);
    if es.len() == 0 {
        assert(ts[i] == TokenV::RBrace);
        assert(p_entries(ts, i) == Some((Seq::<FileMatchV>::empty(), i)));
        assert(es =~= Seq::<FileMatchV>::empty());
    } else {
        let first = es.first();
        let rest = es.drop_first();
        lemma_tokens_of_entry_facts(first);
        lemma_tokens_of_entries_len(rest);
        assert(tokens_of_entries(es) == tokens_of_entry(first) + tokens_of_entries(rest));
        assert(ts.subrange(i, i + 23) =~= tokens_of_entry(first)) by {
            assert(forall|k: int|
                0 <= k < 23 ==> ts.subrange(i, i + 23)[k] == #[trigger] ts.subrange(
                    i,
                    i + 23 * es.len(),
                )[k]);
        }
        assert(es[0].serializable());
        lemma_p_entry_at(ts, i, first);
        assert(ts[i] == ts.subrange(i, i + 23 * es.len())[0]);
        assert(ts[i] == TokenV::Word("files"@));
        assert forall|k: int|
            0 <= k < 23 * rest.len() implies ts.subrange(i + 23, i + 23 + 23 * rest.len())[k]
            == tokens_of_entries(rest)[k] by {
            assert(ts.subrange(i + 23, i + 23 + 23 * rest.len())[k] == ts[i + 23 + k]);
            assert(ts.subrange(i, i + 23 * es.len())[k + 23] == ts[i + 23 + k]);
            assert(tokens_of_entries(es)[k + 23] == tokens_of_entries(rest)[k]);
        }
        assert(ts.subrange(i + 23, i + 23 + 23 * rest.len()) =~= tokens_of_entries(rest));
        assert(forall|k: int| 0 <= k < rest.len() ==> (#[trigger] rest[k]).serializable()) by {
            assert(forall|k: int| 0 <= k < rest.len() ==> rest[k] == es[k + 1]);
        }
        assert(i + 23 + 23 * rest.len() == i + 23 * es.len());
        lemma_p_entries_at(ts, i + 23, rest);
        assert(seq![first] + rest =~= es);
    }
}

/// Parsing the token sequence of a serializable document yields the
/// document.
proof fn lemma_parse_tokens_of_doc(d: DocV)
    requires
        d.serializable(),
    ensures
        p_doc(tokens_of_doc(d)) == Some(d),
{
    let ts = tokens_of_doc(d);
    let k = d.matches.files.len() as int;
    lemma_tokens_of_meta_facts(d.meta);
    lemma_keyword_facts();
    lemma_tokens_of_entries_len(d.matches.files);
    assert(ts.len() == 10 + 23 * k);
    assert forall|j: int| 0 <= j < 7 implies ts[j] == tokens_of_meta(d.meta)[j] by {}
    assert(ts[7] == TokenV::Word("matches"@));
    assert(ts[8] == TokenV::LBrace);
    assert(ts[9 + 23 * k] == TokenV::RBrace);
    lemma_u64_digits_roundtrip(d.meta.created as nat);
    assert(spec_parse_u64(spec_u64_digits(d.meta.created as nat)) == Some(
        d.meta.created as u64,
    ));
    assert(p_prop(ts, 1, "version"@) == Some((d.meta.version, 4int)));
    assert(p_prop(ts, 4, "created"@) == Some((spec_u64_digits(d.meta.created as nat), 7int)));
    let parsed_meta = MetaV { version: d.meta.version, created: (d.meta.created as u64) as int };
    assert(parsed_meta =~= d.meta);
    assert(p_meta(ts, 0) == Some((d.meta, 7int)));
    assert(ts.subrange(9, 9 + 23 * k) =~= tokens_of_entries(d.matches.files));
    lemma_p_entries_at(ts, 9, d.matches.files);
    assert(p_entries(ts, 9) == Some((d.matches.files, 9 + 23 * k)));
    let parsed = DocV { meta: d.meta, matches: MatchesV { files: d.matches.files } };
    assert(parsed =~= d);
}

/// Manifest round trip: deserializing the canonical rendering of any
/// serializable document yields the document back, every field intact.
pub proof fn lemma_manifest_roundtrip(d: DocV)
    requires
        d.serializable(),
    ensures
        spec_deserialize(spec_render_doc(d)) == Some(d),
{
    lemma_scan_render_doc(d);
    lemma_parse_tokens_of_doc(d);
}

pub proof fn lemma_p_meta_advances(ts: Seq<TokenV>, i: int)
    ensures
        p_meta(ts, i) matches Some(r) ==> 0 <= i < r.1 <= ts.len(),
{
}

// ---------------------------------------------------------------------------
// The executable parser
// ---------------------------------------------------------------------------

/// Tests whether a token is the given bare word.
fn tok_is_word(t: &Token, key: &str) -> (r: bool)
    ensures
        r == (t@ == TokenV::Word(key@)),
{
    match t {
        Token::Word(w) => crate::text::str_eq(w.as_str(), key),
        _ => false,
    }
}

/// Parses one `key="value"` property.
fn parse_prop(ts: &Vec<Token>, i: usize, key: &str) -> (r: Option<(String, usize)>)
    requires
        i <= ts@.len(),
    ensures
        (r is Some) == (p_prop(tokens_view(ts@), i as int, key@) is Some),
        r matches Some(p) ==> p_prop(tokens_view(ts@), i as int, key@) == Some(
            (p.0@, p.1 as int),
        ) && p.1 <= ts@.len(),
{
    if ts.len() - i >= 3 {
        if tok_is_word(&ts[i], key) {
            match &ts[i + 1] {
                Token::Equals => match &ts[i + 2] {
                    Token::Str(v) => Some((v.clone(), i + 3)),
                    _ => None,
                },
                _ => None,
            }
        } else {
            None
        }
    } else {
        None
    }
}

/// Parses the `meta` node.
fn parse_meta(ts: &Vec<Token>, i: usize) -> (r: Option<(Meta, usize)>)
    requires
        i <= ts@.len(),
    ensures
        (r is Some) == (p_meta(tokens_view(ts@), i as int) is Some),
        r matches Some(p) ==> p_meta(tokens_view(ts@), i as int) == Some((p.0@, p.1 as int))
            && p.1 <= ts@.len(),
{
    if i < ts.len() && tok_is_word(&ts[i], "meta") {
        match parse_prop(ts, i + 1, "version") {
            Some((ver, j)) => match parse_prop(ts, j, "created") {
                Some((ctext, k)) => match parse_u64(ctext.as_str()) {
                    Some(c) => Some((Meta { version: ver, created: c }, k)),
                    None => None,
                },
                None => None,
            },
            None => None,
        }
    } else {
        None
    }
}

/// Parses a `snapshot` node.
fn parse_snapshot(ts: &Vec<Token>, i: usize) -> (r: Option<(FileSnapshot, usize)>)
    requires
        i <= ts@.len(),
    ensures
        (r is Some) == (p_snapshot(tokens_view(ts@), i as int) is Some),
        r matches Some(p) ==> p_snapshot(tokens_view(ts@), i as int) == Some((p.0@, p.1 as int))
            && p.1 <= ts@.len(),
{
    if i < ts.len() && tok_is_word(&ts[i], "snapshot") {
        match parse_prop(ts, i + 1, "input_name") {
            Some((nm, j1)) => match parse_prop(ts, j1, "absolute_path") {
                Some((ap, j2)) => match parse_prop(ts, j2, "last_mtime") {
                    Some((mtext, j3)) => match parse_i64(mtext.as_str()) {
                        Some(mt) => match parse_prop(ts, j3, "mimetype") {
                            Some((mm, j4)) => Some(
                                (
                                    FileSnapshot {
                                        input_name: nm,
                                        absolute_path: ap,
                                        last_mtime: mt,
                                        mimetype: mm,
                                    },
                                    j4,
                                ),
                            ),
                            None => Some(
                                (
                                    FileSnapshot {
                                        input_name: nm,
                                        absolute_path: ap,
                                        last_mtime: mt,
                                        mimetype: String::new(),
                                    },
                                    j3,
                                ),
                            ),
                        },
                        None => None,
                    },
                    None => None,
                },
                None => None,
            },
            None => None,
        }
    } else {
        None
    }
}

/// Parses an `action` block.
fn parse_action(ts: &Vec<Token>, i: usize) -> (r: Option<(FilterAction, usize)>)
    requires
        i <= ts@.len(),
    ensures
        (r is Some) == (p_action(tokens_view(ts@), i as int) is Some),
        r matches Some(p) ==> p_action(tokens_view(ts@), i as int) == Some((p.0@, p.1 as int))
            && p.1 <= ts@.len(),
{
    if ts.len() - i >= 3 && tok_is_word(&ts[i], "action") {
        let lb = match &ts[i + 1] {
            Token::LBrace => true,
            _ => false,
        };
        let is_move = tok_is_word(&ts[i + 2], "move");
        let is_copy = tok_is_word(&ts[i + 2], "copy");
        if lb && (is_move || is_copy) {
            match parse_prop(ts, i + 3, "dest") {
                Some((d, j)) => {
                    if j < ts.len() {
                        match &ts[j] {
                            Token::RBrace => {
                                if is_move {
                                    Some((FilterAction::Move { dest: d }, j + 1))
                                } else {
                                    Some((FilterAction::Copy { dest: d }, j + 1))
                                }
                            },
                            _ => None,
                        }
                    } else {
                        None
                    }
                },
                None => None,
            }
        } else {
            None
        }
    } else {
        None
    }
}

/// Parses one `files` block.
fn parse_entry(ts: &Vec<Token>, i: usize) -> (r: Option<(FileMatch, usize)>)
    requires
        i <= ts@.len(),
    ensures
        (r is Some) == (p_entry(tokens_view(ts@), i as int) is Some),
        r matches Some(p) ==> p_entry(tokens_view(ts@), i as int) == Some((p.0@, p.1 as int)) && i
            < p.1 <= ts@.len(),
{
    if ts.len() - i >= 2 && tok_is_word(&ts[i], "files") {
        let lb = match &ts[i + 1] {
            Token::LBrace => true,
            _ => false,
        };
        if lb {
            match parse_snapshot(ts, i + 2) {
                Some((s, j)) => match parse_action(ts, j) {
                    Some((a, k)) => {
                        if k < ts.len() {
                            match &ts[k] {
                                Token::RBrace => Some(
                                    (FileMatch { snapshot: s, action: a }, k + 1),
                                ),
                                _ => None,
                            }
                        } else {
                            None
                        }
                    },
                    None => None,
                },
                None => None,
            }
        } else {
            None
        }
    } else {
        None
    }
}

/// Parses `files` blocks until the next token is not the `files` keyword.
fn parse_entries(ts: &Vec<Token>, i: usize) -> (r: Option<(Vec<FileMatch>, usize)>)
    requires
        i <= ts@.len(),
    ensures
        (r is Some) == (p_entries(tokens_view(ts@), i as int) is Some),
        r matches Some(p) ==> p_entries(tokens_view(ts@), i as int) == Some(
            (files_view(p.0@), p.1 as int),
        ) && i <= p.1 <= ts@.len(),
    decreases ts@.len() - i,
{
    let guard = i < ts.len() && tok_is_word(&ts[i], "files");
    if guard {
        match parse_entry(ts, i) {
            Some((e, j)) => match parse_entries(ts, j) {
                Some(es_k) => {
                    let (mut es, k) = es_k;
                    let ghost old_files = files_view(es@);
                    let ghost ev = e@;
                    es.insert(0, e);
                    proof {
                        assert(files_view(es@) =~= seq![ev] + old_files);
                    }
                    Some((es, k))
                },
                None => None,
            },
            None => None,
        }
    } else {
        Some((Vec::new(), i))
    }
}

/// Parses a whole token sequence as a document.
fn parse_doc(ts: &Vec<Token>) -> (r: Option<Doc>)
    ensures
        (r is Some) == (p_doc(tokens_view(ts@)) is Some),
        r matches Some(d) ==> p_doc(tokens_view(ts@)) == Some(d@),
{
    match parse_meta(ts, 0) {
        Some((m, i)) => {
            proof {
                lemma_p_meta_advances(tokens_view(ts@), 0);
            }
            if i == ts.len() {
                let d = Doc { meta: m, matches: Matches { files: Vec::new() } };
                proof {
                    assert(files_view(d.matches.files@) =~= Seq::<FileMatchV>::empty());
                }
                Some(d)
            } else if ts.len() - i >= 2 && tok_is_word(&ts[i], "matches") {
                let lb = match &ts[i + 1] {
                    Token::LBrace => true,
                    _ => false,
                };
                if lb {
                    match parse_entries(ts, i + 2) {
                        Some((es, j)) => {
                            if j < ts.len() {
                                let rb = match &ts[j] {
                                    Token::RBrace => true,
                                    _ => false,
                                };
                                if rb && j + 1 == ts.len() {
                                    Some(Doc { meta: m, matches: Matches { files: es } })
                                } else {
                                    None
                                }
                            } else {
                                None
                            }
                        },
                        None => None,
                    }
                } else {
                    None
                }
            } else {
                None
            }
        },
        None => None,
    }
}

/// Reads a manifest document from its text form.  The whole text must
/// parse; a malformed document is rejected with `ManifestParseFailed`
/// before any entry can be acted on.
pub fn deserialize(s: &str) -> (r: Ganzu<Doc>)
    ensures
        (r is Ok) == (spec_deserialize(s@) is Some),
        r matches Ok(d) ==> spec_deserialize(s@) == Some(d@),
        r matches Err(e) ==> (e matches Error::ManifestParseFailed { .. }),
{
    match scan(s) {
        Some(toks) => match parse_doc(&toks) {
            Some(d) => Ok(d),
            None => Err(
                Error::ManifestParseFailed {
                    reason: "malformed manifest document".to_owned(),
                },
            ),
        },
        None => Err(
            Error::ManifestParseFailed { reason: "unterminated quoted value".to_owned() },
        ),
    }
}

// ---------------------------------------------------------------------------
// Executable rendering
// ---------------------------------------------------------------------------

/// Appends one `key="value"` property.
fn render_prop(out: &mut String, key: &str, val: &str)
    ensures
        final (out)@ == old(out)@ + spec_render_prop(key@, val@),
{
    out.append(key);
    out.append("=\"");
    out.append(val);
    out.append("\"");
    proof {
        assert(out@ =~= old(out)@ + spec_render_prop(key@, val@));
    }
}

/// Appends the text of one `files` block.
fn render_entry(out: &mut String, e: &FileMatch)
    ensures
        final (out)@ == old(out)@ + spec_render_entry(e@),
{
    out.append("files {\n");
    out.append("snapshot ");
    render_prop(out, "input_name", e.snapshot.input_name.as_str());
    out.append(" ");
    render_prop(out, "absolute_path", e.snapshot.absolute_path.as_str());
    out.append(" ");
    let mt = i64_to_string(e.snapshot.last_mtime);
    render_prop(out, "last_mtime", mt.as_str());
    out.append(" ");
    render_prop(out, "mimetype", e.snapshot.mimetype.as_str());
    out.append("\n");
    out.append("action {\n");
    match &e.action {
        FilterAction::Move { dest } => {
            out.append("move ");
            render_prop(out, "dest", dest.as_str());
        },
        FilterAction::Copy { dest } => {
            out.append("copy ");
            render_prop(out, "dest", dest.as_str());
        },
    }
    out.append("\n}\n");
    out.append("}\n");
    proof {
        assert(out@ =~= old(out)@ + spec_render_entry(e@));
    }
}

/// Writes a manifest document in the canonical text form.
pub fn serialize(doc: &Doc) -> (out: String)
    ensures
        out@ == spec_render_doc(doc@),
{
    let mut out = String::new();
    out.append("meta ");
    render_prop(&mut out, "version", doc.meta.version.as_str());
    out.append(" ");
    let created = u64_to_string(doc.meta.created);
    render_prop(&mut out, "created", created.as_str());
    out.append("\n");
    proof {
        assert(out@ =~= spec_render_meta(doc@.meta));
    }
    out.append("matches {\n");
    let ghost fs = files_view(doc.matches.files@);
    let ghost head = spec_render_meta(doc@.meta) + "matches {\n"@;
    let n = doc.matches.files.len();
    let mut k: usize = 0;
    proof {
        assert(fs.take(0) =~= Seq::<FileMatchV>::empty());
        assert(out@ =~= head + spec_render_entries(fs.take(0)));
    }
    while k < n
        invariant
            k <= n,
            n == doc.matches.files.len(),
            fs == files_view(doc.matches.files@),
            head == spec_render_meta(doc@.meta) + "matches {\n"@,
            out@ == head + spec_render_entries(fs.take(k as int)),
        decreases n - k,
    {
        render_entry(&mut out, &doc.matches.files[k]);
        proof {
            assert(fs.take(k as int + 1) =~= fs.take(k as int).push(fs[k as int]));
            lemma_render_entries_push(fs.take(k as int), fs[k as int]);
            assert(fs[k as int] == doc.matches.files@[k as int]@);
            assert(out@ =~= head + spec_render_entries(fs.take(k as int + 1)));
        }
        k = k + 1;
    }
    out.append("}\n");
    proof {
        assert(fs.take(n as int) =~= fs);
        assert(fs == doc@.matches.files);
        assert(out@ =~= spec_render_doc(doc@));
    }
    out
}

} // verus!
