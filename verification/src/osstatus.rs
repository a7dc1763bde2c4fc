//! Status codes of the audio system, and the check of the system version.

use vstd::prelude::*;
use vstd::string::*;
use crate::text;

verus! {

/// The 32 bits of a status code as an unsigned number.
pub open spec fn status_bits(code: i32) -> int {
    if code < 0 {
        code + 0x1_0000_0000
    } else {
        code as int
    }
}

/// The four bytes of a status code, most significant first.
pub open spec fn status_bytes(code: i32) -> Seq<int> {
    let u = status_bits(code);
    seq![u / 0x100_0000, u / 0x1_0000 % 256, u / 256 % 256, u % 256]
}

/// Whether a byte is a space or a visible ASCII character.
pub open spec fn is_printable(b: int) -> bool {
    32 <= b <= 126
}

/// A status code as the four characters it may stand for.
pub open spec fn fourcc_text(code: i32) -> Seq<char> {
    let b = status_bytes(code);
    if is_printable(b[0]) && is_printable(b[1]) && is_printable(b[2]) && is_printable(b[3]) {
        seq!['\'', b[0] as char, b[1] as char, b[2] as char, b[3] as char, '\'']
    } else {
        "non-FourCC"@
    }
}

/// A status code as the four characters it may stand for.
pub fn fourcc(code: i32) -> (r: String)
    ensures
        r@ == fourcc_text(code),
{
    let u: u32 = if code < 0 {
        (code as i64 + 0x1_0000_0000) as u32
    } else {
        code as u32
    };
    let a: u8 = (u / 0x100_0000) as u8;
    let b: u8 = (u / 0x1_0000 % 256) as u8;
    let c: u8 = (u / 256 % 256) as u8;
    let d: u8 = (u % 256) as u8;
    if 32 <= a && a <= 126 && 32 <= b && b <= 126 && 32 <= c && c <= 126 && 32 <= d && d <= 126 {
        let mut s = String::new();
        s.push('\'');
        s.push(a as char);
        s.push(b as char);
        s.push(c as char);
        s.push(d as char);
        s.push('\'');
        assert(s@ =~= fourcc_text(code));
        s
    } else {
        "non-FourCC".to_owned()
    }
}

/// What is reported when `operation` ends with a code other than zero.
pub open spec fn status_text(code: i32, operation: Seq<char>) -> Seq<char> {
    operation + " failed with OSStatus "@ + text::signed_decimal(code as int) + " ("@
        + fourcc_text(code) + ")"@
}

/// Turns the status code of an operation into a result: zero is success.
pub fn status(code: i32, operation: &str) -> (r: Result<(), String>)
    ensures
        match r {
            Ok(_) => code == 0,
            Err(e) => code != 0 && e@ == status_text(code, operation@),
        },
{
    if code == 0 {
        return Ok(());
    }
    let mut s = operation.to_owned();
    s.append(" failed with OSStatus ");
    text::push_signed_decimal(&mut s, code);
    s.append(" (");
    s.append(fourcc(code).as_str());
    s.append(")");
    Err(s)
}

/// The collected report after one more operation: failures are joined by semicolons.
pub open spec fn collected(
    errors: Option<Seq<char>>,
    code: i32,
    operation: Seq<char>,
) -> Option<Seq<char>> {
    if code == 0 {
        errors
    } else {
        match errors {
            Some(before) => Some(before + "; "@ + status_text(code, operation)),
            None => Some(status_text(code, operation)),
        }
    }
}

/// Adds the failure of an operation to a report, if it failed.
pub fn collect_status(code: i32, operation: &str, errors: &mut Option<String>)
    ensures
        text::opt_text(*final(errors)) == collected(text::opt_text(*old(errors)), code, operation@),
{
    match status(code, operation) {
        Ok(_) => {},
        Err(message) => {
            let report = match errors.take() {
                Some(before) => {
                    let mut s = before;
                    s.append("; ");
                    s.append(message.as_str());
                    s
                },
                None => message,
            };
            *errors = Some(report);
        },
    }
}

/// Judges the read of a property: it must succeed and return exactly the bytes asked for.
pub fn property_read(code: i32, returned: u32, expected: u32) -> (r: Result<(), String>)
    ensures
        match r {
            Ok(_) => code == 0 && returned == expected,
            Err(e) => if code != 0 {
                e@ == status_text(code, "AudioObjectGetPropertyData"@)
            } else {
                returned != expected && e@ == "AudioObjectGetPropertyData returned "@
                    + text::decimal(returned as nat) + " bytes, expected "@ + text::decimal(
                    expected as nat,
                )
            },
        },
{
    match status(code, "AudioObjectGetPropertyData") {
        Ok(_) => {},
        Err(e) => return Err(e),
    }
    if returned != expected {
        let mut s = "AudioObjectGetPropertyData returned ".to_owned();
        text::push_decimal(&mut s, returned as u64);
        s.append(" bytes, expected ");
        text::push_decimal(&mut s, expected as u64);
        return Err(s);
    }
    Ok(())
}

/// The position of the first dot from `from` on, or the length if there is none.
pub open spec fn next_dot(s: Seq<char>, from: int) -> int
    decreases s.len() - from,
{
    if from < 0 || from >= s.len() {
        s.len() as int
    } else if s[from] == '.' {
        from
    } else {
        next_dot(s, from + 1)
    }
}

/// The major and minor number at the head of a dotted version, where both are numbers.
pub open spec fn version_numbers(s: Seq<char>) -> Option<(nat, nat)> {
    let first = next_dot(s, 0);
    if first == s.len() {
        None
    } else {
        let second = next_dot(s, first + 1);
        match (
            text::parsed_unsigned(s.take(first), u32::MAX as int),
            text::parsed_unsigned(s.subrange(first + 1, second), u32::MAX as int),
        ) {
            (Some(major), Some(minor)) => Some((major, minor)),
            _ => None,
        }
    }
}

/// Whether a version is 14.4 or newer.
pub open spec fn is_supported_version(s: Seq<char>) -> bool {
    match version_numbers(s) {
        Some((major, minor)) => major > 14 || (major == 14 && minor >= 4),
        None => false,
    }
}

fn find_dot(s: &str, len: usize, from: usize) -> (r: usize)
    requires
        len == s@.len(),
        from <= len,
    ensures
        r == next_dot(s@, from as int),
        from <= r <= len,
    decreases len - from,
{
    if from == len || s.get_char(from) == '.' {
        from
    } else {
        find_dot(s, len, from + 1)
    }
}

/// Refuses system versions that lack process taps.
pub fn ensure_supported_macos(version: &str) -> (r: Result<(), String>)
    ensures
        match r {
            Ok(_) => is_supported_version(version@),
            Err(e) => !is_supported_version(version@) && e@
                == "macOS 14.4 or newer is required (running "@ + version@ + ")"@,
        },
{
    let len = version.unicode_len();
    let first = find_dot(version, len, 0);
    let mut supported = false;
    if first < len {
        let second = find_dot(version, len, first + 1);
        let major = version.substring_char(0, first);
        let minor = version.substring_char(first + 1, second);
        assert(major@ =~= version@.take(first as int));
        match text::parse_unsigned(major, u32::MAX as u64) {
            Some(major) => match text::parse_unsigned(minor, u32::MAX as u64) {
                Some(minor) => {
                    supported = major > 14 || (major == 14 && minor >= 4);
                },
                None => {},
            },
            None => {},
        }
    }
    if supported {
        Ok(())
    } else {
        let mut s = "macOS 14.4 or newer is required (running ".to_owned();
        s.append(version);
        s.append(")");
        Err(s)
    }
}

/// The four characters of a status code make up the code again, most significant first, and are
/// shown between quotes. A code that is not made up of visible characters says so.
pub proof fn law_four_characters_make_up_the_code(code: i32)
    ensures
        ({
            let t = fourcc_text(code);
            ||| t == "non-FourCC"@
            ||| {
                &&& t.len() == 6
                &&& t[0] == '\''
                &&& t[5] == '\''
                &&& forall|i: int| 1 <= i <= 4 ==> 32 <= #[trigger] t[i] as int <= 126
                &&& t[1] as int * 0x100_0000 + t[2] as int * 0x1_0000 + t[3] as int * 0x100
                    + t[4] as int == (if code < 0 {
                    code + 0x1_0000_0000
                } else {
                    code as int
                })
            }
        }),
{
    let u = status_bits(code);
    let a = u / 0x100_0000;
    let b = u / 0x1_0000 % 256;
    let c = u / 256 % 256;
    let d = u % 256;
    assert(a * 0x100_0000 + b * 0x1_0000 + c * 0x100 + d == u);
    let t = fourcc_text(code);
    if is_printable(a) && is_printable(b) && is_printable(c) && is_printable(d) {
        assert(t[1] as int == a && t[2] as int == b && t[3] as int == c && t[4] as int == d);
    }
}

/// A code that is made up of four visible characters is shown as these.
pub proof fn law_visible_code_is_shown(code: i32, a: u8, b: u8, c: u8, d: u8)
    requires
        32 <= a <= 126,
        32 <= b <= 126,
        32 <= c <= 126,
        32 <= d <= 126,
        code == a * 0x100_0000 + b * 0x1_0000 + c * 0x100 + d,
    ensures
        fourcc_text(code) == seq!['\'', a as char, b as char, c as char, d as char, '\''],
{
    let u = code as int;
    assert(u / 0x100_0000 == a);
    assert(u / 0x1_0000 == a * 256 + b);
    assert(u / 0x1_0000 % 256 == b);
    assert(u / 256 == a * 0x1_0000 + b * 256 + c);
    assert(u / 256 % 256 == c);
    assert(u % 256 == d);
}

/// What is reported of a failure begins with the operation, shows the code as a number that reads
/// back, and ends with the four characters in brackets.
pub proof fn law_failure_names_operation_and_code(code: i32, operation: Seq<char>)
    ensures
        ({
            let t = status_text(code, operation);
            let i = operation.len() as int;
            let k = t.len() - fourcc_text(code).len() - 3;
            let number = t.subrange(i + 22, k);
            &&& t.take(i) == operation
            &&& t.subrange(i, i + 22) == " failed with OSStatus "@
            &&& t.skip(k) == " ("@ + fourcc_text(code) + ")"@
            &&& code >= 0 ==> text::all_digits(number) && text::digits_value(number) == code
            &&& code < 0 ==> number[0] == '-' && text::all_digits(number.skip(1))
                && text::digits_value(number.skip(1)) == -code
        }),
{
    let t = status_text(code, operation);
    let number = text::signed_decimal(code as int);
    let i = operation.len() as int;
    let k = i + 22 + number.len();
    reveal_strlit(" failed with OSStatus ");
    reveal_strlit(" (");
    reveal_strlit(")");
    text::law_signed_decimal_reads_back(code as int);
    assert(t.take(i) =~= operation);
    assert(t.subrange(i, i + 22) =~= " failed with OSStatus "@);
    assert(t.subrange(i + 22, k) =~= number);
    assert(t.skip(k) =~= " ("@ + fourcc_text(code) + ")"@);
}

/// A report grows by the failures alone, each behind the earlier ones.
pub proof fn law_report_keeps_every_failure(
    errors: Option<Seq<char>>,
    code: i32,
    operation: Seq<char>,
)
    ensures
        code == 0 ==> collected(errors, code, operation) == errors,
        code != 0 ==> collected(errors, code, operation) is Some,
        code != 0 ==> status_text(code, operation).is_suffix_of(
            collected(errors, code, operation)->0,
        ),
        code != 0 && errors is None ==> collected(errors, code, operation)->0 == status_text(
            code,
            operation,
        ),
        code != 0 && errors is Some ==> (errors->0 + "; "@).is_prefix_of(
            collected(errors, code, operation)->0,
        ) && collected(errors, code, operation)->0.len() == errors->0.len() + 2 + status_text(
            code,
            operation,
        ).len(),
{
    reveal_strlit("; ");
    if code != 0 {
        let t = collected(errors, code, operation)->0;
        let last = status_text(code, operation);
        assert(last =~= t.subrange(t.len() - last.len(), t.len() as int));
        if errors is Some {
            let before = errors->0 + "; "@;
            assert(before =~= t.subrange(0, before.len() as int));
        }
    }
}

/// A version is told by its first two numbers, whatever follows them: it is supported from 14.4
/// on. Nothing without a dot is.
pub proof fn law_version_is_told_by_two_numbers(major: u32, minor: u32, rest: Seq<char>)
    ensures
        is_supported_version(
            text::decimal(major as nat) + seq!['.'] + text::decimal(minor as nat),
        ) <==> major > 14 || (major == 14 && minor >= 4),
        is_supported_version(
            text::decimal(major as nat) + seq!['.'] + text::decimal(minor as nat) + seq!['.']
                + rest,
        ) <==> major > 14 || (major == 14 && minor >= 4),
        !rest.contains('.') ==> !is_supported_version(rest),
{
    let a = text::decimal(major as nat);
    let b = text::decimal(minor as nat);
    let short = a + seq!['.'] + b;
    let long = short + seq!['.'] + rest;
    let first = a.len() as int;
    let second = first + 1 + b.len();
    text::law_decimal_reads_back(major as nat);
    text::law_decimal_reads_back(minor as nat);
    text::law_written_number_is_read(major as nat, u32::MAX as int);
    text::law_written_number_is_read(minor as nat, u32::MAX as int);
    assert forall|i: int| 0 <= i < a.len() implies a[i] != '.' by {
        assert('0' <= a[i] <= '9');
    }
    assert forall|i: int| 0 <= i < b.len() implies b[i] != '.' by {
        assert('0' <= b[i] <= '9');
    }
    lemma_next_dot(short, 0, first);
    lemma_next_dot(short, first + 1, second);
    assert(short.take(first) =~= a);
    assert(short.subrange(first + 1, second) =~= b);
    lemma_next_dot(long, 0, first);
    lemma_next_dot(long, first + 1, second);
    assert(long.take(first) =~= a);
    assert(long.subrange(first + 1, second) =~= b);
    if !rest.contains('.') {
        lemma_next_dot(rest, 0, rest.len() as int);
    }
}

/// The next dot is where there is one and none before it.
proof fn lemma_next_dot(s: Seq<char>, from: int, at: int)
    requires
        0 <= from <= at <= s.len(),
        forall|i: int| from <= i < at ==> #[trigger] s[i] != '.',
        at < s.len() ==> s[at] == '.',
    ensures
        next_dot(s, from) == at,
    decreases at - from,
{
    if from < at {
        lemma_next_dot(s, from + 1, at);
    }
}

/// A status code is a success exactly if it is zero.
pub proof fn law_zero_is_success(code: i32, operation: &str, result: Result<(), String>)
    requires
        call_ensures(status, (code, operation), result),
    ensures
        result is Ok <==> code == 0,
        result is Err ==> operation@.is_prefix_of(result->Err_0@),
{
    if code != 0 {
        law_failure_names_operation_and_code(code, operation@);
        let t = status_text(code, operation@);
        assert(operation@ =~= t.subrange(0, operation@.len() as int));
    }
}

/// A property was read exactly if the call succeeded and returned as many bytes as were asked for.
pub proof fn law_property_is_read_whole(
    code: i32,
    returned: u32,
    expected: u32,
    result: Result<(), String>,
)
    requires
        call_ensures(property_read, (code, returned, expected), result),
    ensures
        result is Ok <==> code == 0 && returned == expected,
{
}

/// A system version is refused with the version in brackets.
pub proof fn law_refused_version_is_named(version: &str, result: Result<(), String>)
    requires
        call_ensures(ensure_supported_macos, (version,), result),
    ensures
        result is Ok <==> is_supported_version(version@),
        result is Err ==> ({
            let t = result->Err_0@;
            &&& t.take(41) == "macOS 14.4 or newer is required (running "@
            &&& t.subrange(41, t.len() - 1) == version@
            &&& t.last() == ')'
        }),
{
    if result is Err {
        reveal_strlit("macOS 14.4 or newer is required (running ");
        reveal_strlit(")");
        let t = result->Err_0@;
        assert(t.take(41) =~= "macOS 14.4 or newer is required (running "@);
        assert(t.subrange(41, t.len() - 1) =~= version@);
    }
}

} // verus!
