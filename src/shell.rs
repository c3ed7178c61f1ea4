//! The kernel shell's line editor and command-line splitting.
use vstd::prelude::*;

verus! {

/// The size of the line buffer.
pub const LINE_CAPACITY: usize = 512;

/// The most arguments a command line may have.
pub const MAX_ARGS: usize = 64;

pub const BELL: u8 = 7;
pub const BACKSPACE: u8 = 8;
pub const DELETE: u8 = 127;

/// What the console answers to a key.
#[derive(Clone, Copy, Debug, PartialEq, Eq, Structural)]
pub enum Edit {
    /// Echo the byte, which was added to the line.
    Echo(u8),
    /// Erase the last byte on screen: backspace, space, backspace.
    Erase,
    /// Ring the bell: the key was refused.
    Bell,
    /// The line is complete.
    Submit,
}

/// What the editor does with `byte` on the line `line`: the new line and the
/// answer.
pub open spec fn edit_spec(line: Seq<u8>, byte: u8) -> (Seq<u8>, Edit) {
    if byte == 13 || byte == 10 {
        (line, Edit::Submit)
    } else if byte == BACKSPACE || byte == DELETE {
        if line.len() == 0 {
            (line, Edit::Bell)
        } else {
            (line.drop_last(), Edit::Erase)
        }
    } else if byte < 32 || byte == 255 {
        (line, Edit::Bell)
    } else if line.len() >= LINE_CAPACITY {
        (line, Edit::Bell)
    } else {
        (line.push(byte), Edit::Echo(byte))
    }
}

/// Applies key `byte` to the line being edited. Return and newline submit
/// the line; backspace and delete erase one byte; other control bytes,
/// 0xFF, and bytes past the capacity ring the bell.
pub fn edit(line: &mut Vec<u8>, byte: u8) -> (r: Edit)
    ensures
        (final(line)@, r) == edit_spec(old(line)@, byte),
{
    if byte == 13 || byte == 10 {
        Edit::Submit
    } else if byte == BACKSPACE || byte == DELETE {
        match line.pop() {
            Some(_) => Edit::Erase,
            None => Edit::Bell,
        }
    } else if byte < 32 || byte == 255 {
        Edit::Bell
    } else if line.len() >= LINE_CAPACITY {
        Edit::Bell
    } else {
        line.push(byte);
        Edit::Echo(byte)
    }
}

/// Why a command line has no command.
#[derive(Clone, Copy, Debug, PartialEq, Eq, Structural)]
pub enum CommandError {
    /// The line holds no argument.
    Empty,
    /// The line holds more than 64 arguments.
    TooManyArgs,
}

/// The words of `line` from byte `i` on, split at spaces, empty words left
/// out; `cur` is the word begun before `i`.
pub open spec fn words_from(line: Seq<u8>, i: int, cur: Seq<u8>) -> Seq<Seq<u8>>
    decreases line.len() - i,
{
    if i >= line.len() {
        if cur.len() > 0 {
            seq![cur]
        } else {
            seq![]
        }
    } else if line[i] == 32 {
        if cur.len() > 0 {
            seq![cur] + words_from(line, i + 1, seq![])
        } else {
            words_from(line, i + 1, seq![])
        }
    } else {
        words_from(line, i + 1, cur.push(line[i]))
    }
}

/// The arguments of a command line: its words between spaces.
pub open spec fn words(line: Seq<u8>) -> Seq<Seq<u8>> {
    words_from(line, 0, seq![])
}

proof fn lemma_words_step(line: Seq<u8>, i: int, cur: Seq<u8>, done: Seq<Seq<u8>>)
    requires
        0 <= i < line.len(),
    ensures
        line[i] == 32 && cur.len() > 0 ==> done + words_from(line, i, cur) == done.push(cur)
            + words_from(line, i + 1, seq![]),
{
    if line[i] == 32 && cur.len() > 0 {
        assert(done + (seq![cur] + words_from(line, i + 1, seq![])) =~= done.push(cur) + words_from(
            line,
            i + 1,
            seq![],
        ));
    }
}

/// Splits a command line into its arguments at spaces. A line without any
/// is `Empty`; one with more than 64 is `TooManyArgs`.
pub fn parse_command(line: &Vec<u8>) -> (r: Result<Vec<Vec<u8>>, CommandError>)
    ensures
        match r {
            Ok(args) => args@.len() > 0 && args@.len() <= MAX_ARGS && args@.map_values(|a: Vec<u8>| a@)
                == words(line@),
            Err(CommandError::Empty) => words(line@).len() == 0,
            Err(CommandError::TooManyArgs) => words(line@).len() > MAX_ARGS,
        },
{
    let mut args: Vec<Vec<u8>> = Vec::new();
    let mut cur: Vec<u8> = Vec::new();
    let mut i: usize = 0;
    while i < line.len()
        invariant
            i <= line@.len(),
            args@.map_values(|a: Vec<u8>| a@) + words_from(line@, i as int, cur@) == words(line@),
        decreases line@.len() - i,
    {
        let ghost done = args@.map_values(|a: Vec<u8>| a@);
        let ghost before = cur@;
        if line[i] == 32 {
            if cur.len() == 0 {
                assert(words_from(line@, i as int, before) == words_from(line@, i + 1, seq![]));
                assert(before =~= Seq::<u8>::empty());
            }
            if cur.len() > 0 {
                proof {
                    lemma_words_step(line@, i as int, cur@, done);
                }
                let word = cur;
                args.push(word);
                cur = Vec::new();
                proof {
                    assert(args@.map_values(|a: Vec<u8>| a@) =~= done.push(word@));
                }
            }
        } else {
            assert(words_from(line@, i as int, before) == words_from(line@, i + 1, before.push(line@[i as int])));
            cur.push(line[i]);
        }
        i = i + 1;
    }
    if cur.len() > 0 {
        let ghost done = args@.map_values(|a: Vec<u8>| a@);
        let word = cur;
        args.push(word);
        proof {
            assert(args@.map_values(|a: Vec<u8>| a@) =~= done.push(word@));
            assert(done + words_from(line@, i as int, word@) =~= done.push(word@));
        }
    } else {
        proof {
            assert(args@.map_values(|a: Vec<u8>| a@) + words_from(line@, i as int, cur@) =~= args@.map_values(|a: Vec<u8>| a@));
        }
    }
    if args.len() == 0 {
        return Err(CommandError::Empty);
    }
    if args.len() > MAX_ARGS {
        return Err(CommandError::TooManyArgs);
    }
    Ok(args)
}

} // verus!
