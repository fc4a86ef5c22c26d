use vstd::prelude::*;

verus! {

/// The severity of a log record, most severe first.
#[derive(Clone, Copy, Debug, PartialEq, Eq, Structural)]
pub enum LogLevel {
    Error,
    Warn,
    Info,
    Debug,
    Trace,
}

/// The level's name, right-aligned in a field of five characters, in ASCII
/// ("ERROR", " WARN", " INFO", "DEBUG", "TRACE").
pub open spec fn padded_level_name(level: LogLevel) -> Seq<u8> {
    match level {
        LogLevel::Error => seq![0x45u8, 0x52u8, 0x52u8, 0x4Fu8, 0x52u8],
        LogLevel::Warn => seq![0x20u8, 0x57u8, 0x41u8, 0x52u8, 0x4Eu8],
        LogLevel::Info => seq![0x20u8, 0x49u8, 0x4Eu8, 0x46u8, 0x4Fu8],
        LogLevel::Debug => seq![0x44u8, 0x45u8, 0x42u8, 0x55u8, 0x47u8],
        LogLevel::Trace => seq![0x54u8, 0x52u8, 0x41u8, 0x43u8, 0x45u8],
    }
}

/// The console line of a log record: "[", the padded level, "]: ", the
/// message and a line feed.
pub open spec fn log_line(level: LogLevel, message: Seq<u8>) -> Seq<u8> {
    seq![0x5Bu8] + padded_level_name(level) + seq![0x5Du8, 0x3Au8, 0x20u8] + message + seq![0x0Au8]
}

/// Appends `bytes` to `out`.
fn push_bytes(out: &mut Vec<u8>, bytes: &[u8])
    ensures
        final(out)@ == old(out)@ + bytes@,
{
    let mut k: usize = 0;
    while k < bytes.len()
        invariant
            k <= bytes@.len(),
            out@ == old(out)@ + bytes@.take(k as int),
        decreases bytes@.len() - k,
    {
        out.push(bytes[k]);
        proof {
            assert(bytes@.take(k + 1) =~= bytes@.take(k as int).push(bytes@[k as int]));
        }
        k = k + 1;
    }
    proof {
        assert(bytes@.take(k as int) =~= bytes@);
    }
}

/// The line that the kernel's logger writes to the console for a record of
/// `level` with text `message`; see `log_line`.
pub fn format_record(level: LogLevel, message: &[u8]) -> (line: Vec<u8>)
    ensures
        line@ == log_line(level, message@),
{
    let mut line: Vec<u8> = Vec::new();
    line.push(0x5Bu8);
    let name: Vec<u8> = match level {
        LogLevel::Error => vec![0x45u8, 0x52u8, 0x52u8, 0x4Fu8, 0x52u8],
        LogLevel::Warn => vec![0x20u8, 0x57u8, 0x41u8, 0x52u8, 0x4Eu8],
        LogLevel::Info => vec![0x20u8, 0x49u8, 0x4Eu8, 0x46u8, 0x4Fu8],
        LogLevel::Debug => vec![0x44u8, 0x45u8, 0x42u8, 0x55u8, 0x47u8],
        LogLevel::Trace => vec![0x54u8, 0x52u8, 0x41u8, 0x43u8, 0x45u8],
    };
    proof {
        assert(name@ =~= padded_level_name(level));
    }
    push_bytes(&mut line, name.as_slice());
    line.push(0x5Du8);
    line.push(0x3Au8);
    line.push(0x20u8);
    push_bytes(&mut line, message);
    line.push(0x0Au8);
    proof {
        assert(line@ =~= log_line(level, message@));
    }
    line
}

/// A log line holds the whole message, whatever its length: "[", five
/// characters of level, "]: ", every byte of the message in order, and a
/// line feed, ten bytes around the message.
pub proof fn law_log_line_holds_message(level: LogLevel, message: Seq<u8>)
    ensures
        log_line(level, message).len() == message.len() + 10,
        log_line(level, message).subrange(9, 9 + message.len() as int) == message,
        log_line(level, message)[0] == 0x5Bu8,
        log_line(level, message).subrange(1, 6) == padded_level_name(level),
        log_line(level, message).subrange(6, 9) == seq![0x5Du8, 0x3Au8, 0x20u8],
        log_line(level, message).last() == 0x0Au8,
{
    let line = log_line(level, message);
    assert(padded_level_name(level).len() == 5);
    assert(line.subrange(9, 9 + message.len() as int) =~= message);
    assert(line.subrange(1, 6) =~= padded_level_name(level));
    assert(line.subrange(6, 9) =~= seq![0x5Du8, 0x3Au8, 0x20u8]);
}

} // verus!
