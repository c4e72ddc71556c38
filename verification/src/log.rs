//! What is logged, and how.
use vstd::prelude::*;
use vstd::string::*;

use crate::text::{contains, contains_text, decimal, law_contained_texts, push_decimal};

verus! {

/// Whether a message is not worth logging: the arrival of gossip, which never ends.
pub open spec fn is_gossip(args: Seq<char>) -> bool {
    ||| contains_text(args, "Received message of type 258"@)
    ||| contains_text(args, "Received message of type 256"@)
    ||| contains_text(args, "Received message of type 257"@)
}

/// A text, filled up with spaces to five characters.
pub open spec fn padded(text: Seq<char>) -> Seq<char> {
    text + Seq::new((if text.len() < 5 { 5 - text.len() } else { 0 }) as nat, |i: int| ' ')
}

/// The line that a message is logged by.
pub open spec fn log_line(
    level: Seq<char>,
    module: Seq<char>,
    file: Seq<char>,
    line: u32,
    args: Seq<char>,
) -> Seq<char> {
    padded(level) + " ["@ + module + " : "@ + file + ", "@ + decimal(line as nat) + "] "@ + args
}

/// Logs messages by printing them.
pub struct LogPrinter {}

impl LogPrinter {
    /// The line to print for a message, or `None` for one that is not worth it.
    pub fn log(
        &self,
        level: &str,
        module: &str,
        file: &str,
        line: u32,
        args: &str,
    ) -> (printed: Option<String>)
        ensures
            printed is None <==> is_gossip(args@),
            printed matches Some(text) ==> text@ == log_line(
                level@,
                module@,
                file@,
                line,
                args@,
            ),
    {
        if contains(args, "Received message of type 258") || contains(
            args,
            "Received message of type 256",
        ) || contains(args, "Received message of type 257") {
            return None;
        }
        let mut text = level.to_string();
        let mut width: usize = level.unicode_len();
        assert(text@ =~= level@ + Seq::new(0, |i: int| ' '));
        while width < 5
            invariant
                level@.len() <= width,
                level@.len() < 5 ==> width <= 5,
                level@.len() >= 5 ==> width == level@.len(),
                text@ == level@ + Seq::new((width - level@.len()) as nat, |i: int| ' '),
            decreases 5 - width,
        {
            text.push(' ');
            width += 1;
            assert(text@ =~= level@ + Seq::new((width - level@.len()) as nat, |i: int| ' '));
        }
        assert(text@ =~= padded(level@));
        text.append(" [");
        text.append(module);
        text.append(" : ");
        text.append(file);
        text.append(", ");
        push_decimal(&mut text, line as u64);
        text.append("] ");
        text.append(args);
        Some(text)
    }
}

/// A message is passed over exactly if it tells, anywhere in it, of a message of type 256, 257 or 258.
pub proof fn law_gossip_is_passed_over(args: Seq<char>)
    ensures
        is_gossip(args) <==> exists|front: Seq<char>, kind: Seq<char>, back: Seq<char>|
            {
                &&& args == #[trigger] (front + ("Received message of type "@ + kind) + back)
                &&& kind == "256"@ || kind == "257"@ || kind == "258"@
            },
{
    reveal_strlit("Received message of type ");
    reveal_strlit("256");
    reveal_strlit("257");
    reveal_strlit("258");
    reveal_strlit("Received message of type 256");
    reveal_strlit("Received message of type 257");
    reveal_strlit("Received message of type 258");
    let head = "Received message of type "@;
    assert("Received message of type 256"@ =~= head + "256"@);
    assert("Received message of type 257"@ =~= head + "257"@);
    assert("Received message of type 258"@ =~= head + "258"@);
    law_contained_texts(args, head + "256"@);
    law_contained_texts(args, head + "257"@);
    law_contained_texts(args, head + "258"@);
    if contains_text(args, head + "256"@) {
        let (front, back) = choose|front: Seq<char>, back: Seq<char>|
            args == #[trigger] (front + (head + "256"@) + back);
        assert(args == front + (head + "256"@) + back);
    }
    if contains_text(args, head + "257"@) {
        let (front, back) = choose|front: Seq<char>, back: Seq<char>|
            args == #[trigger] (front + (head + "257"@) + back);
        assert(args == front + (head + "257"@) + back);
    }
    if contains_text(args, head + "258"@) {
        let (front, back) = choose|front: Seq<char>, back: Seq<char>|
            args == #[trigger] (front + (head + "258"@) + back);
        assert(args == front + (head + "258"@) + back);
    }
}

/// A line begins with the level and ends with the message, whatever they are; between them stand
/// spaces, as many as a level of fewer than five characters lacks, and then where the message comes
/// from, which depends on neither.
pub proof fn law_log_lines_hold_level_and_message(
    level: Seq<char>,
    module: Seq<char>,
    file: Seq<char>,
    line: u32,
    args: Seq<char>,
)
    ensures
        ({
            let spaces = (if level.len() < 5 { 5 - level.len() } else { 0 }) as nat;
            let place = " ["@ + module + " : "@ + file + ", "@ + decimal(line as nat) + "] "@;
            let printed = log_line(level, module, file, line, args);
            &&& printed.len() == level.len() + spaces + place.len() + args.len()
            &&& printed.take(level.len() as int) == level
            &&& forall|i: int|
                level.len() <= i < level.len() + spaces ==> #[trigger] printed[i] == ' '
            &&& printed.subrange(
                (level.len() + spaces) as int,
                (level.len() + spaces + place.len()) as int,
            ) == place
            &&& printed.skip((level.len() + spaces + place.len()) as int) == args
        }),
{
    let spaces = (if level.len() < 5 { 5 - level.len() } else { 0 }) as nat;
    let place = " ["@ + module + " : "@ + file + ", "@ + decimal(line as nat) + "] "@;
    let printed = log_line(level, module, file, line, args);
    assert(printed =~= padded(level) + place + args);
    assert(padded(level).len() == level.len() + spaces);
    assert(printed.take(level.len() as int) =~= level);
    assert(printed.subrange(
        (level.len() + spaces) as int,
        (level.len() + spaces + place.len()) as int,
    ) =~= place);
    assert(printed.skip((level.len() + spaces + place.len()) as int) =~= args);
}

} // verus!
