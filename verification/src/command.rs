//! The command line that starts fzf.

use crate::split::{shell_split, words};
use vstd::prelude::*;
use vstd::utf8::{decode_utf8, valid_utf8};

verus! {

/// The program that is started.
pub const FZF: &'static str = "fzf";

/// The environment variable for the size of fzf's overlay.
pub const HEIGHT_VARIABLE: &'static str = "FZF_TMUX_HEIGHT";

/// The environment variable for extra fzf arguments.
pub const OPTIONS_VARIABLE: &'static str = "FZF_CTRL_R_OPTS";

/// The text that `String::from_utf8_lossy` makes of `bytes`.
pub uninterp spec fn utf8_lossy(bytes: Seq<u8>) -> Seq<char>;

/// `String::from_utf8_lossy`, as an owned string. It is a function of the bytes. Of valid UTF-8
/// it gives the text that the bytes encode. That it puts replacement characters for the
/// invalid parts of other bytes, and how many, is not stated.
#[verifier::external_body]
fn lossy_text(bytes: &[u8]) -> (text: String)
    ensures
        text@ == utf8_lossy(bytes@),
        valid_utf8(bytes@) ==> text@ == decode_utf8(bytes@),
{
    String::from_utf8_lossy(bytes).into_owned()
}

/// The query that fzf starts with: the line being edited, if it is not empty, as text.
pub fn initial_query(line: &[u8]) -> (query: Option<String>)
    ensures
        query is Some <==> line@.len() > 0,
        query matches Some(text) ==> {
            &&& text@ == utf8_lossy(line@)
            &&& valid_utf8(line@) ==> text@ == decode_utf8(line@)
        },
{
    if line.len() > 0 {
        Some(lossy_text(line))
    } else {
        None
    }
}

/// The characters of an optional string.
pub open spec fn optional_text(text: Option<String>) -> Option<Seq<char>> {
    match text {
        Some(text) => Some(text@),
        None => None,
    }
}

/// The arguments for fzf, given the overlay height and the extra options that the user has set,
/// and the query to start with. The extra options stand behind the fixed ones, the query last.
pub open spec fn fzf_arguments(
    height: Option<Seq<char>>,
    extra_options: Option<Seq<char>>,
    query: Option<Seq<char>>,
) -> Seq<Seq<char>> {
    let fixed = seq![
        "--height="@ + match height {
            Some(height) => height,
            None => "40%"@,
        },
        "--tac"@,
        "--tiebreak=index"@,
        "+m"@,
        "--bind=ctrl-r:toggle-sort"@,
    ];
    let extra = match extra_options {
        Some(options) => words(options),
        None => Seq::empty(),
    };
    let start = match query {
        Some(query) => seq!["--query"@, query],
        None => Seq::empty(),
    };
    fixed + extra + start
}

/// Builds the arguments for fzf.
pub fn fzf_args(
    height: Option<String>,
    extra_options: Option<String>,
    query: Option<String>,
) -> (args: Vec<String>)
    ensures
        args.deep_view() == fzf_arguments(
            optional_text(height),
            optional_text(extra_options),
            optional_text(query),
        ),
{
    let mut args: Vec<String> = Vec::new();
    let mut size = "--height=".to_owned();
    match &height {
        Some(height) => size.append(height.as_str()),
        None => size.append("40%"),
    }
    args.push(size);
    args.push("--tac".to_owned());
    args.push("--tiebreak=index".to_owned());
    args.push("+m".to_owned());
    args.push("--bind=ctrl-r:toggle-sort".to_owned());
    let ghost fixed = args.deep_view();
    let mut extra: Vec<String> = match &extra_options {
        Some(options) => shell_split(options.as_str()),
        None => Vec::new(),
    };
    let ghost added = extra.deep_view();
    args.append(&mut extra);
    assert(args.deep_view() =~= fixed + added);
    let ghost before = args.deep_view();
    match query {
        Some(text) => {
            args.push("--query".to_owned());
            args.push(text);
            assert(args.deep_view() =~= before + seq!["--query"@, text@]);
        },
        None => {
            assert(args.deep_view() =~= before + Seq::<Seq<char>>::empty());
        },
    }
    assert(args.deep_view() =~= fzf_arguments(
        optional_text(height),
        optional_text(extra_options),
        optional_text(query),
    ));
    args
}

/// Whatever the user has set, fzf is told to show the newest entries first, to let one entry be
/// selected, and to toggle sorting with Ctrl+R. Each word of the extra options is an argument
/// of its own behind these, where it can override them, and the query comes last.
pub proof fn law_fixed_options_come_first(
    height: Option<Seq<char>>,
    options: Seq<char>,
    query: Seq<char>,
)
    ensures
        ({
            let n = words(options).len() as int;
            let args = fzf_arguments(height, Some(options), Some(query));
            &&& args.len() == 5 + n + 2
            &&& args.subrange(1, 5) == seq![
                "--tac"@,
                "--tiebreak=index"@,
                "+m"@,
                "--bind=ctrl-r:toggle-sort"@,
            ]
            &&& args.subrange(5, 5 + n) == words(options)
            &&& args.skip(5 + n) == seq!["--query"@, query]
            &&& fzf_arguments(height, Some(options), None) == args.take(5 + n)
            &&& fzf_arguments(height, None, None) == args.take(5)
        }),
{
    let n = words(options).len() as int;
    let args = fzf_arguments(height, Some(options), Some(query));
    assert(args.subrange(1, 5) =~= seq![
        "--tac"@,
        "--tiebreak=index"@,
        "+m"@,
        "--bind=ctrl-r:toggle-sort"@,
    ]);
    assert(args.subrange(5, 5 + n) =~= words(options));
    assert(args.skip(5 + n) =~= seq!["--query"@, query]);
    assert(fzf_arguments(height, Some(options), None) =~= args.take(5 + n));
    assert(fzf_arguments(height, None, None) =~= args.take(5));
}

/// Whatever the height and the extra options, unset ones included, a query adds exactly two
/// arguments at the end: `--query`, and the query itself as one argument.
pub proof fn law_query_is_two_arguments(
    height: Option<Seq<char>>,
    options: Option<Seq<char>>,
    query: Seq<char>,
)
    ensures
        fzf_arguments(height, options, Some(query)) == fzf_arguments(height, options, None).push(
            "--query"@,
        ).push(query),
{
    assert(fzf_arguments(height, options, Some(query)) =~= fzf_arguments(
        height,
        options,
        None,
    ).push("--query"@).push(query));
}

/// Whatever the height, extra options add their words, each as one argument, and unset ones add
/// nothing to the five fixed arguments.
pub proof fn law_extra_options_are_added(height: Option<Seq<char>>, options: Seq<char>)
    ensures
        fzf_arguments(height, Some(options), None) == fzf_arguments(height, None, None) + words(
            options,
        ),
        fzf_arguments(height, None, None).len() == 5,
{
    assert(fzf_arguments(height, Some(options), None) =~= fzf_arguments(height, None, None)
        + words(options));
}

/// The height is passed on as it is set, even where it is empty. Where it is not set, it is 40%.
/// The other fixed arguments do not depend on it.
pub proof fn law_height_is_passed_on(height: Seq<char>)
    ensures
        fzf_arguments(Some(height), None, None) == seq![
            "--height="@ + height,
            "--tac"@,
            "--tiebreak=index"@,
            "+m"@,
            "--bind=ctrl-r:toggle-sort"@,
        ],
        fzf_arguments(None, None, None) == fzf_arguments(Some("40%"@), None, None),
{
    assert(fzf_arguments(Some(height), None, None) =~= seq![
        "--height="@ + height,
        "--tac"@,
        "--tiebreak=index"@,
        "+m"@,
        "--bind=ctrl-r:toggle-sort"@,
    ]);
    assert(fzf_arguments(None, None, None) =~= fzf_arguments(Some("40%"@), None, None));
}

/// An optional string is spoken of as it is: character for character, and set even if empty.
pub proof fn law_settings_are_viewed_whole(text: String)
    ensures
        optional_text(Some(text)) == Some(text@),
        optional_text(None) is None,
{
}

} // verus!
