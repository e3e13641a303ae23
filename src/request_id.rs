use vstd::prelude::*;

verus! {

/// Relies on rand::random: a value drawn from the thread-local generator, of
/// which nothing is known.
pub assume_specification<T>[ rand::random::<T> ]() -> (r: T)
    where
        rand::distr::StandardUniform: rand::distr::Distribution<T>,
;

/// The lowercase hexadecimal digits.
pub open spec fn hex_digit(d: int) -> char {
    "0123456789abcdef"@[d]
}

/// The last `count` hexadecimal digits of `n`, most significant first.
pub open spec fn hex_digits(n: nat, count: nat) -> Seq<char>
    decreases count,
{
    if count == 0 {
        Seq::empty()
    } else {
        hex_digits(n / 16, (count - 1) as nat).push(hex_digit((n % 16) as int))
    }
}

/// The request id made from a 64-bit nonce: `req_` and sixteen hexadecimal
/// digits.
pub open spec fn request_id_text(n: u64) -> Seq<char> {
    "req_"@ + hex_digits(n as nat, 16)
}

/// Writes the request id for the nonce `n`.
pub fn request_id_for(n: u64) -> (r: String)
    ensures
        r@ == request_id_text(n),
{
    let digits = "0123456789abcdef";
    proof {
        reveal_strlit("0123456789abcdef");
    }
    let mut acc = String::new();
    let mut m: u64 = n;
    let mut k: u64 = 0;
    while k < 16
        invariant
            k <= 16,
            digits@ == "0123456789abcdef"@,
            digits@.len() == 16,
            hex_digits(n as nat, 16) == hex_digits(m as nat, (16 - k) as nat) + acc@,
        decreases 16 - k,
    {
        let d = (m % 16) as usize;
        let piece = digits.substring_char(d, d + 1);
        let ghost rest = acc@;
        acc = String::from_str(piece).concat(acc.as_str());
        proof {
            assert(piece@ =~= seq![hex_digit(d as int)]);
            assert(hex_digits(m as nat, (16 - k) as nat) == hex_digits((m / 16) as nat, (16 - k - 1) as nat).push(
                hex_digit((m % 16) as int),
            ));
            assert(hex_digits((m / 16) as nat, (16 - k - 1) as nat).push(hex_digit((m % 16) as int)) + rest
                =~= hex_digits((m / 16) as nat, (16 - k - 1) as nat) + acc@);
        }
        m = m / 16;
        k = k + 1;
    }
    proof {
        assert(hex_digits(m as nat, 0) + acc@ =~= acc@);
    }
    String::from_str("req_").concat(acc.as_str())
}

/// Draws a fresh request id: `req_` and sixteen hexadecimal digits of a
/// random 64-bit number.
pub fn generate_request_id() -> (r: String)
    ensures
        exists|n: u64| r@ == request_id_text(n),
{
    let n: u64 = rand::random::<u64>();
    request_id_for(n)
}

} // verus!
