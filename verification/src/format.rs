use vstd::prelude::*;

verus! {

/// The decimal digit for `d`, when `d < 10`.
pub open spec fn digit_char(d: nat) -> char {
    if d == 0 { '0' } else if d == 1 { '1' } else if d == 2 { '2' } else if d == 3 { '3' }
    else if d == 4 { '4' } else if d == 5 { '5' } else if d == 6 { '6' } else if d == 7 { '7' }
    else if d == 8 { '8' } else { '9' }
}

/// The decimal representation of `n`, without leading zeros.
pub open spec fn decimal(n: nat) -> Seq<char>
    decreases n,
{
    if n < 10 {
        seq![digit_char(n)]
    } else {
        decimal(n / 10).push(digit_char(n % 10))
    }
}

/// `n` in decimal: the digits of `n / 10`, then the last digit.
pub(crate) fn decimal_string(n: u64) -> (text: String)
    ensures
        text@ == decimal(n as nat),
    decreases n,
{
    let mut text = if n < 10 {
        String::new()
    } else {
        decimal_string(n / 10)
    };
    let ghost before = text@;
    let last = (n % 10) as u8;
    text.append(hex_digit_str(last));
    proof {
        assert(hex_char(last as nat) == digit_char(n as nat % 10));
        if n < 10 {
            assert(text@ =~= seq![digit_char(n as nat)]);
        } else {
            assert(text@ =~= decimal(n as nat / 10).push(digit_char(n as nat % 10)));
        }
    }
    text
}

/// The label `source:<id>` that names a source in reports.
pub(crate) fn source_label(id: u64) -> (label: String)
    ensures
        label@ == "source:"@ + decimal(id as nat),
{
    let mut label = String::from_str("source:");
    label.append(decimal_string(id).as_str());
    label
}

/// The uppercase hexadecimal digit for `d`, when `d < 16`.
pub open spec fn hex_char(d: nat) -> char {
    if d < 10 {
        digit_char(d)
    } else if d == 10 { 'A' } else if d == 11 { 'B' } else if d == 12 { 'C' } else if d == 13 { 'D' }
    else if d == 14 { 'E' } else { 'F' }
}

/// The bytes in uppercase hexadecimal, two digits each.
pub open spec fn hex_text(bytes: Seq<u8>) -> Seq<char>
    decreases bytes.len(),
{
    if bytes.len() == 0 {
        Seq::empty()
    } else {
        hex_text(bytes.drop_last()) + seq![hex_char(bytes.last() as nat / 16), hex_char(bytes.last() as nat % 16)]
    }
}

/// The digit for `d` as a one-character string.
pub(crate) fn hex_digit_str(d: u8) -> (s: &'static str)
    requires
        d < 16,
    ensures
        s@ == seq![hex_char(d as nat)],
{
    let s = match d {
        0 => "0", 1 => "1", 2 => "2", 3 => "3", 4 => "4", 5 => "5", 6 => "6", 7 => "7",
        8 => "8", 9 => "9", 10 => "A", 11 => "B", 12 => "C", 13 => "D", 14 => "E", _ => "F",
    };
    proof {
        reveal_strlit("0"); reveal_strlit("1"); reveal_strlit("2"); reveal_strlit("3");
        reveal_strlit("4"); reveal_strlit("5"); reveal_strlit("6"); reveal_strlit("7");
        reveal_strlit("8"); reveal_strlit("9"); reveal_strlit("A"); reveal_strlit("B");
        reveal_strlit("C"); reveal_strlit("D"); reveal_strlit("E"); reveal_strlit("F");
    }
    s
}

/// Appends the bytes in uppercase hexadecimal.
pub(crate) fn append_hex(text: &mut String, bytes: &[u8])
    ensures
        final(text)@ == old(text)@ + hex_text(bytes@),
{
    let mut i: usize = 0;
    while i < bytes.len()
        invariant
            i <= bytes@.len(),
            text@ == old(text)@ + hex_text(bytes@.take(i as int)),
        decreases bytes@.len() - i,
    {
        let b = bytes[i];
        text.append(hex_digit_str(b / 16));
        text.append(hex_digit_str(b % 16));
        proof {
            let t = bytes@.take(i as int + 1);
            assert(t.drop_last() =~= bytes@.take(i as int));
            assert(t.last() == b);
        }
        assert(text@ =~= old(text)@ + hex_text(bytes@.take(i as int + 1)));
        i = i + 1;
    }
    assert(bytes@.take(i as int) =~= bytes@);
}

} // verus!
