use vstd::prelude::*;
use vstd::string::StringExecFns;

verus! {

broadcast use vstd::string::group_string_axioms;

/// Address of the drone on its own network.
pub const DRONE_HOST: &'static str = "172.16.10.1";

/// TCP port of the drone: handshake, heartbeat and video.
pub const DRONE_TCP_PORT: usize = 8888;

/// UDP port of the drone: gamepad commands.
pub const DRONE_UDP_PORT: usize = 8895;

/// Address of the local video player.
pub const FFMPEG_HOST: &'static str = "127.0.0.1";

/// TCP port on which the local video player listens.
pub const FFMPEG_TCP_PORT: usize = 8889;

/// The character of a decimal digit.
pub open spec fn digit_char(d: nat) -> char {
    ('0' as nat + d) as char
}

/// The decimal numeral of `n`, without leading zeros.
pub open spec fn decimal(n: nat) -> Seq<char>
    decreases n,
{
    if n < 10 {
        seq![digit_char(n)]
    } else {
        decimal(n / 10).push(digit_char(n % 10))
    }
}

/// The one-character string of a decimal digit.
fn digit_str(d: usize) -> (r: &'static str)
    requires
        d < 10,
    ensures
        r@ == seq![digit_char(d as nat)],
{
    proof {
        reveal_strlit("0");
        reveal_strlit("1");
        reveal_strlit("2");
        reveal_strlit("3");
        reveal_strlit("4");
        reveal_strlit("5");
        reveal_strlit("6");
        reveal_strlit("7");
        reveal_strlit("8");
        reveal_strlit("9");
    }
    let r = match d {
        0 => "0",
        1 => "1",
        2 => "2",
        3 => "3",
        4 => "4",
        5 => "5",
        6 => "6",
        7 => "7",
        8 => "8",
        _ => "9",
    };
    assert(r@ =~= seq![digit_char(d as nat)]);
    r
}

/// The decimal numeral of `n`.
pub fn decimal_string(n: usize) -> (r: String)
    ensures
        r@ == decimal(n as nat),
    decreases n,
{
    if n < 10 {
        String::from_str(digit_str(n))
    } else {
        let mut r = decimal_string(n / 10);
        r.append(digit_str(n % 10));
        r
    }
}

/// The socket address `host:port`.
pub fn endpoint(host: &str, port: usize) -> (r: String)
    ensures
        r@ == host@ + ":"@ + decimal(port as nat),
{
    let mut r = String::from_str(host);
    r.append(":");
    let digits = decimal_string(port);
    r.append(digits.as_str());
    r
}

/// The URL on which the local video player listens for the stream.
pub fn get_tcp_path() -> (path: String)
    ensures
        path@ == "tcp://"@ + FFMPEG_HOST@ + ":"@ + decimal(FFMPEG_TCP_PORT as nat) + "?listen"@,
{
    let mut path = String::from_str("tcp://");
    let address = endpoint(FFMPEG_HOST, FFMPEG_TCP_PORT);
    path.append(address.as_str());
    path.append("?listen");
    assert(path@ =~= "tcp://"@ + FFMPEG_HOST@ + ":"@ + decimal(FFMPEG_TCP_PORT as nat) + "?listen"@);
    path
}

/// The value of one hexadecimal digit (`0`-`9`, `a`-`f`, `A`-`F`), if `c` is one.
pub open spec fn hex_digit_value(c: char) -> Option<nat> {
    if '0' <= c && c <= '9' {
        Some((c as int - '0' as int) as nat)
    } else if 'a' <= c && c <= 'f' {
        Some((c as int - 'a' as int + 10) as nat)
    } else if 'A' <= c && c <= 'F' {
        Some((c as int - 'A' as int + 10) as nat)
    } else {
        None
    }
}

/// Every character of `d` is a hexadecimal digit.
pub open spec fn all_hex_digits(d: Seq<char>) -> bool {
    forall|i: int| 0 <= i < d.len() ==> (#[trigger] hex_digit_value(d[i])) is Some
}

/// The number that the hexadecimal digits `d` write, most significant first.
pub open spec fn hex_number(d: Seq<char>) -> nat
    decreases d.len(),
{
    if d.len() == 0 {
        0
    } else {
        hex_number(d.drop_last()) * 16 + hex_digit_value(d.last()).unwrap_or(0)
    }
}

/// A byte written in base 16: an optional `+` sign, then one or more
/// hexadecimal digits (leading zeros allowed) whose value is at most 255.
pub open spec fn parse_hex_u8(s: Seq<char>) -> Option<u8> {
    let digits = if s.len() > 0 && s[0] == '+' { s.drop_first() } else { s };
    if digits.len() > 0 && all_hex_digits(digits) && hex_number(digits) <= 255 {
        Some(hex_number(digits) as u8)
    } else {
        None
    }
}

/// The hexadecimal digits: `0`-`9` are worth 0 to 9, `a`-`f` and `A`-`F`
/// are worth 10 to 15, and no other character is a digit.
pub proof fn lemma_hex_digits(c: char)
    ensures
        hex_digit_value(c) is Some <==> ('0' <= c <= '9' || 'a' <= c <= 'f' || 'A' <= c <= 'F'),
        '0' <= c <= '9' ==> hex_digit_value(c) == Some((c as int - 48) as nat),
        'a' <= c <= 'f' ==> hex_digit_value(c) == Some((c as int - 87) as nat),
        'A' <= c <= 'F' ==> hex_digit_value(c) == Some((c as int - 55) as nat),
        hex_digit_value(c) matches Some(v) ==> v < 16,
{
}

/// A byte of two hexadecimal digits is sixteen times the first plus the
/// second; one digit alone is its own value; a leading `+` is ignored; an
/// empty text, a lone `+` and a run of digits worth more than 255 are not
/// bytes.
pub proof fn lemma_parse_hex_u8(a: char, b: char, d: Seq<char>)
    ensures
        hex_digit_value(a) is Some && hex_digit_value(b) is Some ==> parse_hex_u8(seq![a, b]) == Some(
            (16 * hex_digit_value(a).unwrap() + hex_digit_value(b).unwrap()) as u8,
        ),
        hex_digit_value(a) matches Some(x) ==> parse_hex_u8(seq![a]) == Some(x as u8),
        hex_digit_value(a) is None && a != '+' ==> parse_hex_u8(seq![a, b]) is None,
        parse_hex_u8(Seq::<char>::empty()) is None,
        parse_hex_u8(seq!['+']) is None,
        d.len() > 0 && d[0] != '+' ==> parse_hex_u8(seq!['+'] + d) == parse_hex_u8(d),
        all_hex_digits(d) && hex_number(d) > 255 ==> parse_hex_u8(d) is None,
{
    let s2 = seq![a, b];
    assert(s2.drop_last() =~= seq![a]);
    assert(seq![a].drop_last() =~= Seq::<char>::empty());
    if hex_digit_value(a) is None && a != '+' {
        assert(!all_hex_digits(s2)) by {
            assert(hex_digit_value(s2[0]) is None);
        }
    }
    if hex_digit_value(a) is Some {
        assert(all_hex_digits(seq![a])) by {
            assert forall|i: int| 0 <= i < 1 implies (#[trigger] hex_digit_value(seq![a][i])) is Some by {
                assert(seq![a][i] == a);
            }
        }
    }
    if hex_digit_value(a) is Some && hex_digit_value(b) is Some {
        assert(all_hex_digits(s2)) by {
            assert forall|i: int| 0 <= i < 2 implies (#[trigger] hex_digit_value(s2[i])) is Some by {
                if i == 0 {
                    assert(s2[i] == a);
                } else {
                    assert(s2[i] == b);
                }
            }
        }
    }
    if d.len() > 0 {
        assert((seq!['+'] + d).drop_first() =~= d);
        assert((seq!['+'] + d)[0] == '+');
    }
    assert(seq!['+'].drop_first() =~= Seq::<char>::empty());
    if all_hex_digits(d) && d.len() > 0 {
        assert(hex_digit_value(d[0]) is Some);
    }
}

/// A longer run of hexadecimal digits writes a number at least as large.
proof fn lemma_hex_number_prefix(d: Seq<char>, k: int)
    requires
        0 <= k <= d.len(),
        all_hex_digits(d),
    ensures
        hex_number(d.take(k)) <= hex_number(d),
    decreases d.len(),
{
    if k < d.len() {
        assert(d.drop_last().take(k) =~= d.take(k));
        assert forall|i: int| 0 <= i < d.drop_last().len() implies (#[trigger] hex_digit_value(
            d.drop_last()[i],
        )) is Some by {
            assert(d.drop_last()[i] == d[i]);
        }
        lemma_hex_number_prefix(d.drop_last(), k);
    } else {
        assert(d.take(k) =~= d);
    }
}

/// The value of one hexadecimal digit.
fn hex_digit(c: char) -> (r: Option<u8>)
    ensures
        r matches Some(v) ==> hex_digit_value(c) == Some(v as nat) && v < 16,
        r is None ==> hex_digit_value(c) is None,
{
    if '0' <= c && c <= '9' {
        Some(((c as u32) - ('0' as u32)) as u8)
    } else if 'a' <= c && c <= 'f' {
        Some(((c as u32) - ('a' as u32) + 10) as u8)
    } else if 'A' <= c && c <= 'F' {
        Some(((c as u32) - ('A' as u32) + 10) as u8)
    } else {
        None
    }
}

/// Parses the byte written in base 16 by `chars[start..end]`.
fn parse_hex_range(chars: &Vec<char>, start: usize, end: usize) -> (r: Option<u8>)
    requires
        start <= end <= chars.len(),
    ensures
        r == parse_hex_u8(chars@.subrange(start as int, end as int)),
{
    let ghost s = chars@.subrange(start as int, end as int);
    let mut i = start;
    if i < end && chars[i] == '+' {
        i = i + 1;
        assert(s.drop_first() =~= chars@.subrange(i as int, end as int));
    } else {
        assert(s =~= chars@.subrange(i as int, end as int));
    }
    let ghost digits = chars@.subrange(i as int, end as int);
    if i == end {
        return None;
    }
    let first = i;
    let mut acc: u16 = 0;
    assert(digits.take(0) =~= Seq::<char>::empty());
    while i < end
        invariant
            first <= i <= end <= chars.len(),
            digits == chars@.subrange(first as int, end as int),
            s == chars@.subrange(start as int, end as int),
            digits == (if s.len() > 0 && s[0] == '+' { s.drop_first() } else { s }),
            acc <= 255,
            acc == hex_number(digits.take(i - first)),
            forall|j: int| 0 <= j < i - first ==> (#[trigger] hex_digit_value(digits[j])) is Some,
        decreases end - i,
    {
        let d = match hex_digit(chars[i]) {
            Some(d) => d,
            None => {
                assert(hex_digit_value(digits[i - first]) is None);
                return None;
            },
        };
        let ghost k: int = i - first;
        assert(digits.take(k + 1).drop_last() =~= digits.take(k));
        assert(digits.take(k + 1).last() == digits[k]);
        let next: u16 = acc * 16 + d as u16;
        i = i + 1;
        if next > 255 {
            proof {
                if all_hex_digits(digits) {
                    lemma_hex_number_prefix(digits, k + 1);
                }
            }
            return None;
        }
        acc = next;
    }
    assert(digits.take(i - first) =~= digits);
    Some(acc as u8)
}

/// The characters that separate the fields of a data text.
pub open spec fn is_separator(c: char) -> bool {
    c == ' ' || c == '\n'
}

/// The fields of a data text: the runs of characters between separators, in
/// order. A text with n separators has n + 1 fields, some of them possibly
/// empty.
pub open spec fn split_fields(s: Seq<char>) -> Seq<Seq<char>>
    decreases s.len(),
{
    if s.len() == 0 {
        seq![Seq::<char>::empty()]
    } else {
        let init = split_fields(s.drop_last());
        if is_separator(s.last()) {
            init.push(Seq::<char>::empty())
        } else {
            init.update(init.len() - 1, init.last().push(s.last()))
        }
    }
}

/// A field of a data text holds two bytes: the first two characters write
/// one byte in base 16, the rest of the field writes another.
pub open spec fn field_valid(field: Seq<char>) -> bool {
    &&& field.len() >= 2
    &&& parse_hex_u8(field.take(2)) is Some
    &&& parse_hex_u8(field.skip(2)) is Some
}

/// The two bytes of a field.
pub open spec fn field_bytes(field: Seq<char>) -> Seq<u8> {
    seq![parse_hex_u8(field.take(2)).unwrap(), parse_hex_u8(field.skip(2)).unwrap()]
}

/// The bytes of a sequence of fields, two per field, in order.
pub open spec fn decode_fields(fields: Seq<Seq<char>>) -> Seq<u8>
    decreases fields.len(),
{
    if fields.len() == 0 {
        Seq::<u8>::empty()
    } else {
        decode_fields(fields.drop_last()) + field_bytes(fields.last())
    }
}

/// Every field of the data text is valid.
pub open spec fn data_valid(s: Seq<char>) -> bool {
    forall|k: int| 0 <= k < split_fields(s).len() ==> field_valid(#[trigger] split_fields(s)[k])
}

/// The bytes that a data text holds.
pub open spec fn decode_data(s: Seq<char>) -> Seq<u8> {
    decode_fields(split_fields(s))
}

/// The two bytes of one field, if it is valid.
fn decode_field(field: &Vec<char>) -> (r: Option<(u8, u8)>)
    ensures
        r is Some <==> field_valid(field@),
        r matches Some(b) ==> seq![b.0, b.1] == field_bytes(field@),
{
    let len = field.len();
    if len < 2 {
        return None;
    }
    assert(field@.subrange(0, 2) =~= field@.take(2));
    assert(field@.subrange(2, len as int) =~= field@.skip(2));
    let high = parse_hex_range(field, 0, 2);
    let low = parse_hex_range(field, 2, len);
    match (high, low) {
        (Some(h), Some(l)) => Some((h, l)),
        _ => None,
    }
}

/// Decodes a data text: fields separated by spaces or newlines, each field
/// two bytes in base 16 (two characters, then the rest of the field).
/// Gives `None` exactly when some field is not valid.
pub fn parse_data(data_str: &str) -> (r: Option<Vec<u8>>)
    ensures
        r is Some <==> data_valid(data_str@),
        r matches Some(v) ==> v@ == decode_data(data_str@),
{
    let chars = chars_of(data_str);
    let ghost s = chars@;
    let mut field: Vec<char> = Vec::new();
    let mut out: Vec<u8> = Vec::new();
    let mut valid = true;
    let ghost mut done: Seq<Seq<char>> = Seq::empty();
    let mut i: usize = 0;
    assert(s.take(0) =~= Seq::<char>::empty());
    assert(done.push(field@) =~= seq![Seq::<char>::empty()]);
    while i < chars.len()
        invariant
            s == chars@,
            s == data_str@,
            i <= chars.len(),
            split_fields(s.take(i as int)) == done.push(field@),
            valid == (forall|k: int| 0 <= k < done.len() ==> field_valid(#[trigger] done[k])),
            valid ==> out@ == decode_fields(done),
        decreases chars.len() - i,
    {
        let c = chars[i];
        assert(s.take(i + 1).drop_last() =~= s.take(i as int));
        assert(s.take(i + 1).last() == c);
        if c == ' ' || c == '\n' {
            let ghost was_valid = valid;
            let ghost prev = done;
            if valid {
                match decode_field(&field) {
                    Some(b) => {
                        out.push(b.0);
                        out.push(b.1);
                    },
                    None => {
                        valid = false;
                    },
                }
            }
            proof {
                assert(done.push(field@).drop_last() =~= done);
                assert(out@ =~= decode_fields(done) + field_bytes(field@) || !valid);
                done = done.push(field@);
                assert(done[prev.len() as int] == field@);
                assert forall|k: int| 0 <= k < prev.len() implies #[trigger] done[k] == prev[k] by {}
                if !valid && !was_valid {
                    let k = choose|k: int| 0 <= k < prev.len() && !field_valid(#[trigger] prev[k]);
                    assert(done[k] == prev[k]);
                }
            }
            field = Vec::new();
            assert(split_fields(s.take(i + 1)) =~= done.push(field@));
        } else {
            field.push(c);
            assert(split_fields(s.take(i + 1)) =~= done.push(field@));
        }
        i = i + 1;
    }
    assert(s.take(i as int) =~= s);
    let ghost fields = done.push(field@);
    assert(fields.drop_last() =~= done);
    if !valid {
        return None;
    }
    match decode_field(&field) {
        Some(b) => {
            out.push(b.0);
            out.push(b.1);
            assert(out@ =~= decode_fields(fields));
            assert forall|k: int| 0 <= k < fields.len() implies field_valid(#[trigger] fields[k]) by {
                if k < done.len() {
                    assert(fields[k] == done[k]);
                }
            }
            Some(out)
        },
        None => {
            assert(!field_valid(fields[fields.len() - 1]));
            None
        },
    }
}

/// Decodes a data text whose fields are all valid (see `parse_data`).
pub fn read_data(data_str: &str) -> (data: Vec<u8>)
    requires
        data_valid(data_str@),
    ensures
        data@ == decode_data(data_str@),
{
    match parse_data(data_str) {
        Some(v) => v,
        None => Vec::new(),
    }
}

/// The number of separators in a text.
pub open spec fn separator_count(s: Seq<char>) -> nat
    decreases s.len(),
{
    if s.len() == 0 {
        0
    } else if is_separator(s.last()) {
        separator_count(s.drop_last()) + 1
    } else {
        separator_count(s.drop_last())
    }
}

/// Splitting a text: there is one field more than there are separators, and
/// no field holds a separator.
pub proof fn lemma_split_fields(s: Seq<char>)
    ensures
        split_fields(s).len() == separator_count(s) + 1,
        forall|k: int, j: int|
            0 <= k < split_fields(s).len() && 0 <= j < split_fields(s)[k].len() ==> !is_separator(
                #[trigger] split_fields(s)[k][j],
            ),
    decreases s.len(),
{
    if s.len() > 0 {
        lemma_split_fields(s.drop_last());
        let init = split_fields(s.drop_last());
        let fs = split_fields(s);
        assert forall|k: int, j: int|
            0 <= k < fs.len() && 0 <= j < fs[k].len() implies !is_separator(#[trigger] fs[k][j]) by {
            if k < init.len() - 1 || (is_separator(s.last()) && k < init.len()) {
                assert(fs[k] == init[k]);
            } else if !is_separator(s.last()) {
                assert(fs[k] == init.last().push(s.last()));
                if j < init.last().len() {
                    assert(fs[k][j] == init[init.len() - 1][j]);
                }
            }
        }
    }
}

/// A field that is followed by a separator keeps its place when the text
/// grows: the fields of a prefix, all but its last, are fields of the text.
proof fn lemma_fields_stable(s: Seq<char>, j: int, k: int)
    requires
        0 <= j <= s.len(),
        0 <= k < split_fields(s.take(j)).len() - 1,
    ensures
        split_fields(s.take(j)).len() <= split_fields(s).len(),
        split_fields(s)[k] == split_fields(s.take(j))[k],
    decreases s.len(),
{
    if j == s.len() {
        assert(s.take(j) =~= s);
    } else {
        let dl = s.drop_last();
        assert(dl.take(j) =~= s.take(j));
        lemma_fields_stable(dl, j, k);
        lemma_split_fields(dl);
    }
}

/// Which data texts the decoder refuses (`parse_data` gives `None`,
/// `read_data` may not be called): every field of a valid text has at least
/// three characters, so the empty text, a text that starts or ends with a
/// separator, and a text with two separators in a row are refused.
pub proof fn lemma_valid_data_shape(s: Seq<char>)
    ensures
        data_valid(s) ==> forall|k: int|
            0 <= k < split_fields(s).len() ==> (#[trigger] split_fields(s)[k]).len() >= 3,
        s.len() == 0 ==> !data_valid(s),
        s.len() > 0 && is_separator(s[0]) ==> !data_valid(s),
        s.len() > 0 && is_separator(s.last()) ==> !data_valid(s),
        forall|i: int|
            0 <= i < s.len() - 1 && is_separator(#[trigger] s[i]) && is_separator(s[i + 1])
                ==> !data_valid(s),
{
    lemma_split_fields(s);
    let fs = split_fields(s);
    assert forall|k: int| 0 <= k < fs.len() && field_valid(#[trigger] fs[k]) implies fs[k].len()
        >= 3 by {
        if fs[k].len() < 3 {
            assert(fs[k].skip(2).len() == 0);
        }
    }
    if s.len() == 0 {
        assert(fs[0].len() == 0);
    }
    if s.len() > 0 && is_separator(s.last()) {
        assert(fs[fs.len() - 1].len() == 0);
    }
    if s.len() > 0 && is_separator(s[0]) {
        let t = s.take(1);
        assert(t.drop_last() =~= Seq::<char>::empty());
        assert(split_fields(t.drop_last()) == split_fields(Seq::<char>::empty()));
        assert(split_fields(Seq::<char>::empty()) =~= seq![Seq::<char>::empty()]);
        assert(t.last() == s[0]);
        assert(split_fields(t) =~= seq![Seq::<char>::empty(), Seq::<char>::empty()]);
        assert(split_fields(t)[0].len() == 0);
        lemma_fields_stable(s, 1, 0);
        assert(fs[0].len() == 0);
    }
    assert forall|i: int|
        0 <= i < s.len() - 1 && is_separator(#[trigger] s[i]) && is_separator(s[i + 1])
            implies !data_valid(s) by {
        let t = s.take(i + 2);
        let u = s.take(i + 1);
        assert(t.drop_last() =~= u);
        assert(t.last() == s[i + 1]);
        assert(u.last() == s[i]);
        lemma_split_fields(u.drop_last());
        let fu = split_fields(u);
        let ft = split_fields(t);
        assert(fu.last().len() == 0);
        assert(ft[fu.len() - 1].len() == 0);
        lemma_fields_stable(s, i + 2, fu.len() - 1);
        assert(fs[fu.len() - 1].len() == 0);
    }
}

/// The bytes of a sequence of fields: two per field, the field's bytes at
/// positions 2k and 2k + 1.
proof fn lemma_decode_fields_layout(fields: Seq<Seq<char>>)
    ensures
        decode_fields(fields).len() == 2 * fields.len(),
        forall|k: int|
            0 <= k < fields.len() ==> decode_fields(fields)[2 * k] == field_bytes(#[trigger] fields[k])[0]
                && decode_fields(fields)[2 * k + 1] == field_bytes(fields[k])[1],
    decreases fields.len(),
{
    if fields.len() > 0 {
        let init = fields.drop_last();
        lemma_decode_fields_layout(init);
        assert forall|k: int| 0 <= k < fields.len() implies decode_fields(fields)[2 * k]
            == field_bytes(#[trigger] fields[k])[0] && decode_fields(fields)[2 * k + 1]
            == field_bytes(fields[k])[1] by {
            if k < init.len() {
                assert(fields[k] == init[k]);
            }
        }
    }
}

/// What a data text decodes to: two bytes per field, in the order of the
/// fields, so twice as many bytes as the text has separators plus one.
pub proof fn lemma_decode_layout(s: Seq<char>)
    ensures
        decode_data(s).len() == 2 * split_fields(s).len(),
        decode_data(s).len() == 2 * (separator_count(s) + 1),
        forall|k: int|
            0 <= k < split_fields(s).len() ==> decode_data(s)[2 * k] == parse_hex_u8(
                (#[trigger] split_fields(s)[k]).take(2),
            ).unwrap() && decode_data(s)[2 * k + 1] == parse_hex_u8(split_fields(s)[k].skip(2)).unwrap(),
{
    lemma_split_fields(s);
    lemma_decode_fields_layout(split_fields(s));
}

/// The characters of a string slice, in order.
pub(crate) fn chars_of(s: &str) -> (v: Vec<char>)
    ensures
        v@ == s@,
{
    let mut v: Vec<char> = Vec::new();
    for c in it: s.chars()
        invariant
            it.seq() == s@,
            v@ == it.seq().take(it.index()),
    {
        v.push(c);
    }
    v
}

} // verus!
