//! What is printed when a command fails.

use vstd::prelude::*;
use vstd::string::StringExecFns;

verus! {

/// One line for each cause, marked as an item of a list.
pub open spec fn cause_lines(causes: Seq<Seq<char>>) -> Seq<Seq<char>> {
    causes.map_values(|cause: Seq<char>| "- "@ + cause)
}

/// The lines that tell of a failed command: the error itself; then, where
/// it has causes, an empty line, a heading and the causes from the nearest
/// to the farthest; then, where a trace was captured, a heading and the
/// trace.
pub open spec fn error_report(
    message: Seq<char>,
    causes: Seq<Seq<char>>,
    backtrace: Option<Seq<char>>,
) -> Seq<Seq<char>> {
    seq!["error: "@ + message] + (if causes.len() > 0 {
        seq![Seq::<char>::empty(), "because:"@] + cause_lines(causes)
    } else {
        Seq::<Seq<char>>::empty()
    }) + (match backtrace {
        Some(trace) => seq!["backtrace:"@, trace],
        None => Seq::<Seq<char>>::empty(),
    })
}

/// The views of a sequence of lines, in the same order.
pub open spec fn line_views(lines: Seq<String>) -> Seq<Seq<char>> {
    lines.map_values(|line: String| line@)
}

/// The lines to print when a command fails with `message`, caused by
/// `causes` from the nearest to the farthest, with the captured trace if
/// there is one.
pub fn error_lines(message: &str, causes: &Vec<String>, backtrace: Option<&str>) -> (lines: Vec<
    String,
>)
    ensures
        line_views(lines@) == error_report(
            message@,
            line_views(causes@),
            match backtrace {
                Some(trace) => Some(trace@),
                None => None,
            },
        ),
{
    let ghost texts = line_views(causes@);
    let mut lines: Vec<String> = Vec::new();
    let mut first = String::from_str("error: ");
    first.append(message);
    lines.push(first);
    assert(line_views(lines@) == seq!["error: "@ + message@]);
    if causes.len() > 0 {
        lines.push(String::new());
        lines.push(String::from_str("because:"));
        let ghost head = seq!["error: "@ + message@, Seq::<char>::empty(), "because:"@];
        assert(line_views(lines@) == head);
        let mut position: usize = 0;
        assert(cause_lines(texts.take(0)) == Seq::<Seq<char>>::empty());
        while position < causes.len()
            invariant
                position <= causes.len(),
                texts == line_views(causes@),
                line_views(lines@) == head + cause_lines(texts.take(position as int)),
            decreases causes.len() - position,
        {
            let mut line = String::from_str("- ");
            line.append(causes[position].as_str());
            let ghost before = lines@;
            lines.push(line);
            proof {
                assert(line_views(lines@) == line_views(before).push(line@));
                assert(cause_lines(texts.take(position + 1)) == cause_lines(
                    texts.take(position as int),
                ).push("- "@ + texts[position as int]));
            }
            position += 1;
        }
        assert(texts.take(position as int) == texts);
        assert(head == seq!["error: "@ + message@] + seq![Seq::<char>::empty(), "because:"@]);
    }
    if let Some(trace) = backtrace {
        let ghost before = lines@;
        lines.push(String::from_str("backtrace:"));
        lines.push(String::from_str(trace));
        assert(line_views(lines@) == line_views(before) + seq!["backtrace:"@, trace@]);
    } else {
        assert(line_views(lines@) == line_views(lines@) + Seq::<Seq<char>>::empty());
    }
    lines
}

} // verus!
