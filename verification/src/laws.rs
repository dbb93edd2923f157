//! What holds of the dispatcher for every state of the device, and of its
//! responses on their way out.

use crate::command::{
    lemma_command_table, parse, parse_line, Command, InfoKind, AT_CGMI, AT_CGMM, AT_CGMR,
    AT_CGSN,
};
use crate::sim868::{
    answer, boot_lines, dispatch, echo_lines, echoed, info_text, ok_line, rejects, response,
    ModemState, ATTENTION_REPLY, CME_ERROR, UNKNOWN_MARKER,
};
use crate::text::{
    digits_value, lemma_byte_len_ascii, lemma_trimmed_is_identity, trimmed, unsigned_u64, wrapped,
};
use vstd::prelude::*;

verus! {

/// The bare attention command is answered by its one line, whatever the state,
/// and changes nothing.
pub proof fn lemma_attention(s: ModemState)
    ensures
        dispatch(s, "AT"@) == (s, seq![ATTENTION_REPLY@]),
{
    reveal_strlit("AT");
    let line = "AT"@;
    lemma_trimmed_is_identity(line);
    lemma_byte_len_ascii(line);
    assert(parse_line(line) == Command::Attention);
    assert(response(s, line) =~= seq![ATTENTION_REPLY@]);
}

/// Setting the supported baud rate is acknowledged, whatever the state: the
/// response ends with the acknowledgement, and the state stays as it is.
pub proof fn lemma_supported_baud_rate(s: ModemState)
    requires
        s.wf(),
    ensures
        parse_line("AT+IPR=115200"@) == (Command::SetBaud { rate: 115200 }),
        dispatch(s, "AT+IPR=115200"@).1.last() == ok_line(),
        dispatch(s, "AT+IPR=115200"@).1 == echo_lines(
            s,
            Command::SetBaud { rate: 115200 },
            "AT+IPR=115200"@,
        ) + seq![ok_line()],
        dispatch(s, "AT+IPR=115200"@).0 == s,
{
    reveal_strlit("AT+IPR=115200");
    lemma_command_table();
    let line = "AT+IPR=115200"@;
    lemma_trimmed_is_identity(line);
    lemma_byte_len_ascii(line);
    let digits = line.skip(6).skip(1);
    assert(digits =~= seq!['1', '1', '5', '2', '0', '0']);
    lemma_digits_115200();
    assert(parse(line) == Command::SetBaud { rate: 115200 });
}

/// The digits of the supported baud rate denote it.
proof fn lemma_digits_115200()
    ensures
        unsigned_u64(seq!['1', '1', '5', '2', '0', '0']) == Some(115200u64),
{
    let d = seq!['1', '1', '5', '2', '0', '0'];
    assert(d.drop_last() =~= seq!['1', '1', '5', '2', '0']);
    assert(d.drop_last().drop_last() =~= seq!['1', '1', '5', '2']);
    assert(d.drop_last().drop_last().drop_last() =~= seq!['1', '1', '5']);
    assert(d.drop_last().drop_last().drop_last().drop_last() =~= seq!['1', '1']);
    assert(d.drop_last().drop_last().drop_last().drop_last().drop_last() =~= seq!['1']);
    reveal_with_fuel(digits_value, 7);
    assert(digits_value(d) == 115200);
}

/// The digits of a baud rate that is not supported.
proof fn lemma_digits_9600()
    ensures
        unsigned_u64(seq!['9', '6', '0', '0']) == Some(9600u64),
{
    let d = seq!['9', '6', '0', '0'];
    assert(d.drop_last() =~= seq!['9', '6', '0']);
    assert(d.drop_last().drop_last() =~= seq!['9', '6']);
    assert(d.drop_last().drop_last().drop_last() =~= seq!['9']);
    reveal_with_fuel(digits_value, 5);
    assert(digits_value(d) == 9600);
}

/// Setting another baud rate is answered by the error line alone, whatever the
/// state, and changes nothing.
pub proof fn lemma_unsupported_baud_rate(s: ModemState)
    requires
        s.wf(),
    ensures
        parse_line("AT+IPR=9600"@) == (Command::SetBaud { rate: 9600 }),
        dispatch(s, "AT+IPR=9600"@) == (s, seq![CME_ERROR@]),
{
    reveal_strlit("AT+IPR=9600");
    lemma_command_table();
    let line = "AT+IPR=9600"@;
    lemma_trimmed_is_identity(line);
    lemma_byte_len_ascii(line);
    let digits = line.skip(6).skip(1);
    assert(digits =~= seq!['9', '6', '0', '0']);
    lemma_digits_9600();
    assert(parse(line) == Command::SetBaud { rate: 9600 });
    assert(response(s, line) =~= seq![CME_ERROR@]);
}

/// No command changes the baud rate.
pub proof fn lemma_baud_rate_is_fixed(s: ModemState, line: Seq<char>)
    ensures
        dispatch(s, line).0.configs.baud_rate == s.configs.baud_rate,
{
}

/// Choosing full functionality stores mode 1 and is answered by the power-up
/// sequence, whose last line is the acknowledgement, after the echo if there
/// is one.
pub proof fn lemma_full_functionality(s: ModemState)
    ensures
        parse_line("AT+CFUN=1"@) == (Command::SetFunction { mode: 1, reset: None }),
        dispatch(s, "AT+CFUN=1"@).0.configs.function_mode == Some(1u8),
        dispatch(s, "AT+CFUN=1"@).0.configs.reset_mode == s.configs.reset_mode,
        dispatch(s, "AT+CFUN=1"@).1 == echo_lines(
            s,
            Command::SetFunction { mode: 1, reset: None },
            "AT+CFUN=1"@,
        ) + boot_lines(),
        dispatch(s, "AT+CFUN=1"@).1.last() == ok_line(),
{
    reveal_strlit("AT+CFUN=1");
    lemma_command_table();
    let line = "AT+CFUN=1"@;
    lemma_trimmed_is_identity(line);
    lemma_byte_len_ascii(line);
    assert(parse(line) == Command::SetFunction { mode: 1, reset: None });
    let c = Command::SetFunction { mode: 1, reset: None };
    assert(answer(s, c, line) =~= boot_lines());
}

/// The command that asks for each identification text.
pub open spec fn info_command(kind: InfoKind) -> Seq<char> {
    match kind {
        InfoKind::Manufacturer => AT_CGMI@,
        InfoKind::Model => AT_CGMM@,
        InfoKind::Serial => AT_CGSN@,
        InfoKind::Revision => AT_CGMR@,
    }
}

/// Each identification command is answered by its text and the
/// acknowledgement, whatever the state, after the echo if there is one, and
/// changes nothing.
pub proof fn lemma_identification(s: ModemState, kind: InfoKind)
    ensures
        parse_line(info_command(kind)) == (Command::Info { kind }),
        answer(s, Command::Info { kind }, info_command(kind)) == seq![
            wrapped(info_text(kind)),
            ok_line(),
        ],
        dispatch(s, info_command(kind)).1 == echo_lines(
            s,
            Command::Info { kind },
            info_command(kind),
        ) + seq![wrapped(info_text(kind)), ok_line()],
        dispatch(s, info_command(kind)).0 == s,
{
    lemma_command_table();
    let line = info_command(kind);
    lemma_trimmed_is_identity(line);
    lemma_byte_len_ascii(line);
    assert(line.subrange(0, 7) =~= line);
    assert(parse(line) == Command::Info { kind });
}

/// A line outside the command table is answered by one line, the marker and
/// the line as it came, and changes nothing.
pub proof fn lemma_unknown_is_repeated(s: ModemState, line: Seq<char>)
    requires
        parse_line(line) is Unknown,
    ensures
        dispatch(s, line) == (s, seq![UNKNOWN_MARKER@ + line]),
{
    assert(response(s, line) =~= seq![UNKNOWN_MARKER@ + line]);
}

/// A command that the device refuses is answered by the error line alone and
/// changes nothing.
pub proof fn lemma_refusal_changes_nothing(s: ModemState, line: Seq<char>)
    requires
        rejects(s, parse_line(line)),
    ensures
        dispatch(s, line) == (s, seq![CME_ERROR@]),
{
    assert(response(s, line) =~= seq![CME_ERROR@]);
}

/// There is a response to every line, and the echo is its first line exactly
/// when echo is on and the command is carried out.
pub proof fn lemma_response_shape(s: ModemState, line: Seq<char>)
    ensures
        dispatch(s, line).1.len() >= 1,
        s.configs.echo_enabled && echoed(s, parse_line(line)) ==> dispatch(s, line).1.first()
            == line.push('\r'),
        dispatch(s, line).1.len() == echo_lines(s, parse_line(line), line).len() + answer(
            s,
            parse_line(line),
            line,
        ).len(),
{
}

/// The values that a parsed command carries are those that the device can
/// store.
pub proof fn lemma_parsed_values_in_range(text: Seq<char>)
    ensures
        parse(text) matches Command::SetFunction { mode, reset } ==> (mode == 0 || mode == 1
            || mode == 4) && (reset matches Some(r) ==> r <= 9),
        parse(text) matches Command::SetVerbosity { level } ==> level <= 2,
{
}

/// Every command leaves a well-formed state well formed.
pub proof fn lemma_dispatch_preserves_wf(s: ModemState, line: Seq<char>)
    requires
        s.wf(),
    ensures
        dispatch(s, line).0.wf(),
{
    lemma_parsed_values_in_range(trimmed(line));
}

/// A stored functionality mode and a stored reset mode stay until a
/// functionality-mode command assigns them anew, and a command that names no
/// reset mode leaves the stored one.
pub proof fn lemma_modes_persist(s: ModemState, line: Seq<char>)
    ensures
        !(parse_line(line) is SetFunction) ==> dispatch(s, line).0.configs.function_mode
            == s.configs.function_mode && dispatch(s, line).0.configs.reset_mode
            == s.configs.reset_mode,
        parse_line(line) matches Command::SetFunction { mode, reset } ==> dispatch(
            s,
            line,
        ).0.configs.function_mode == Some(mode) && dispatch(s, line).0.configs.reset_mode == (
        if reset is Some {
            reset
        } else {
            s.configs.reset_mode
        }),
{
}

/// Commands change the configuration and the mark of the registration
/// producer, and nothing else of the device.
pub proof fn lemma_dispatch_frame(s: ModemState, line: Seq<char>)
    ensures
        dispatch(s, line).0.power == s.power,
        dispatch(s, line).0.gnss == s.gnss,
        dispatch(s, line).0.working == s.working,
        dispatch(s, line).0.reg_status == s.reg_status,
        dispatch(s, line).0.gnss_reporting == s.gnss_reporting,
        s.creg_reporting ==> dispatch(s, line).0.creg_reporting,
{
}

/// What travels as one message arrives unbroken: in the text that a channel
/// carries, the messages one after the other, each message stands in one
/// piece between what was sent before it and what was sent after it. A
/// response that is sent as one message, its lines joined by `batch_text`,
/// therefore has no line of a producer between two of its lines, whatever the
/// producers send and whenever they send it.
pub proof fn lemma_message_is_contiguous(messages: Seq<Seq<char>>, k: int)
    requires
        0 <= k < messages.len(),
    ensures
        messages.flatten() == messages.take(k).flatten() + messages[k] + messages.skip(
            k + 1,
        ).flatten(),
{
    let before = messages.take(k);
    let after = messages.skip(k + 1);
    assert(messages =~= before.push(messages[k]) + after);
    vstd::seq_lib::lemma_flatten_concat(before.push(messages[k]), after);
    before.lemma_flatten_push(messages[k]);
}

} // verus!
