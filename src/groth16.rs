//! Proofs in the snarkjs string layout, and their conversion into field elements
//! and curve points.

use crate::decode::{codes, decimal_value, is_decimal, decoded_integer, parse_fq_element, parse_fr_element, trim_quotes};
use crate::error::ProofParseError;
use crate::field::{Fq, Fr, fq_modulus, fr_modulus};
use crate::point::{Fq2, G1Point, G2Point, g1_from_values, g2_from_values};
use vstd::prelude::*;

verus! {

/// A proof as snarkjs writes it: every number is a decimal or `0x` hexadecimal
/// string.
#[derive(Debug, Clone, PartialEq, Eq)]
pub struct SnarkJSProof {
    /// `[x, y]` of the first point.
    pub pi_a: Vec<String>,
    /// `[[x.c0, x.c1], [y.c0, y.c1]]` of the second point.
    pub pi_b: Vec<Vec<String>>,
    /// `[x, y]` of the third point.
    pub pi_c: Vec<String>,
    /// The public inputs, in order (`publicSignals` on the wire).
    pub public_signals: Vec<String>,
}

/// A proof as points and scalars, ready for a pairing check.
#[derive(Debug, Clone)]
pub struct ParsedProof {
    pub pi_a: G1Point,
    pub pi_b: G2Point,
    pub pi_c: G1Point,
    pub public_inputs: Vec<Fr>,
}

/// The first thing wrong with a proof, in the order in which parsing meets it.
pub enum ParseFailure {
    PiALength(nat),
    PiBLength(nat),
    PiCLength(nat),
    /// A string that decodes to no integer, quotes removed.
    Element(Seq<char>),
    /// A row of `pi_b` that does not hold two components.
    G2Format,
}

/// The first string of `ss` that decodes to no integer, quotes removed.
pub open spec fn first_bad(ss: Seq<Seq<char>>) -> Option<Seq<char>>
    decreases ss.len(),
{
    if ss.len() == 0 {
        None
    } else if decoded_integer(ss[0]) is None {
        Some(trim_quotes(ss[0]))
    } else {
        first_bad(ss.drop_first())
    }
}

/// The residue in the base field of a string that decodes.
pub open spec fn fq_of(s: Seq<char>) -> nat {
    decoded_integer(s)->0 % fq_modulus()
}

/// The residue in the scalar field of a string that decodes.
pub open spec fn fr_of(s: Seq<char>) -> nat {
    decoded_integer(s)->0 % fr_modulus()
}

pub open spec fn element_failure(ss: Seq<Seq<char>>) -> Option<ParseFailure> {
    match first_bad(ss) {
        Some(t) => Some(ParseFailure::Element(t)),
        None => None,
    }
}

/// The first failure of a proof: the three lengths, then the coordinates of
/// `pi_a`, the rows and coordinates of `pi_b`, the coordinates of `pi_c`, and the
/// public signals in order.
pub open spec fn first_failure(p: &SnarkJSProof) -> Option<ParseFailure> {
    let a = p.pi_a.deep_view();
    let b = p.pi_b.deep_view();
    let c = p.pi_c.deep_view();
    if a.len() != 2 {
        Some(ParseFailure::PiALength(a.len()))
    } else if b.len() != 2 {
        Some(ParseFailure::PiBLength(b.len()))
    } else if c.len() != 2 {
        Some(ParseFailure::PiCLength(c.len()))
    } else if first_bad(a) is Some {
        element_failure(a)
    } else if b[0].len() != 2 || b[1].len() != 2 {
        Some(ParseFailure::G2Format)
    } else if first_bad(b[0] + b[1]) is Some {
        element_failure(b[0] + b[1])
    } else if first_bad(c) is Some {
        element_failure(c)
    } else {
        element_failure(p.public_signals.deep_view())
    }
}

/// `e` is the error that reports `f`.
pub open spec fn reports(e: ProofParseError, f: ParseFailure) -> bool {
    match f {
        ParseFailure::PiALength(n) => e matches ProofParseError::InvalidPiALength {
            expected,
            got,
        } && expected == 2 && got == n,
        ParseFailure::PiBLength(n) => e matches ProofParseError::InvalidPiBLength {
            expected,
            got,
        } && expected == 2 && got == n,
        ParseFailure::PiCLength(n) => e matches ProofParseError::InvalidPiCLength {
            expected,
            got,
        } && expected == 2 && got == n,
        ParseFailure::Element(t) => e matches ProofParseError::InvalidFieldElement(m) && m@ == t,
        ParseFailure::G2Format => e is InvalidG2Format,
    }
}

/// `v` holds the scalar-field residues of the strings `ss`, in order.
pub open spec fn scalars_of(v: Seq<Fr>, ss: Seq<Seq<char>>) -> bool {
    &&& v.len() == ss.len()
    &&& forall|i: int| 0 <= i < ss.len() ==> #[trigger] v[i].value() == fr_of(ss[i])
}

/// `q` is what a proof with no failure parses to.
pub open spec fn parsed_from(q: ParsedProof, p: &SnarkJSProof) -> bool {
    let a = p.pi_a.deep_view();
    let b = p.pi_b.deep_view();
    let c = p.pi_c.deep_view();
    &&& g1_from_values(q.pi_a, fq_of(a[0]), fq_of(a[1]))
    &&& g2_from_values(q.pi_b, fq_of(b[0][0]), fq_of(b[0][1]), fq_of(b[1][0]), fq_of(b[1][1]))
    &&& g1_from_values(q.pi_c, fq_of(c[0]), fq_of(c[1]))
    &&& scalars_of(q.public_inputs@, p.public_signals.deep_view())
}

/// The first bad string of a concatenation is that of its first part, else that
/// of its second.
pub proof fn lemma_first_bad_append(a: Seq<Seq<char>>, b: Seq<Seq<char>>)
    ensures
        first_bad(a + b) == if first_bad(a) is Some {
            first_bad(a)
        } else {
            first_bad(b)
        },
    decreases a.len(),
{
    if a.len() == 0 {
        assert(a + b =~= b);
    } else {
        assert((a + b).drop_first() =~= a.drop_first() + b);
        lemma_first_bad_append(a.drop_first(), b);
    }
}

proof fn lemma_first_bad_single(s: Seq<char>)
    ensures
        first_bad(seq![s]) == if decoded_integer(s) is None {
            Some(trim_quotes(s))
        } else {
            None::<Seq<char>>
        },
{
    assert(seq![s].drop_first() =~= Seq::<Seq<char>>::empty());
    assert(seq![s][0] == s);
    assert(first_bad(Seq::<Seq<char>>::empty()) is None);
}

proof fn lemma_first_bad_pair(s: Seq<char>, t: Seq<char>)
    ensures
        first_bad(seq![s, t]) == if decoded_integer(s) is None {
            Some(trim_quotes(s))
        } else if decoded_integer(t) is None {
            Some(trim_quotes(t))
        } else {
            None::<Seq<char>>
        },
{
    lemma_first_bad_single(s);
    lemma_first_bad_single(t);
    assert(seq![s, t] =~= seq![s] + seq![t]);
    lemma_first_bad_append(seq![s], seq![t]);
}

/// Builds a point of the base-field group from two coordinate strings.
pub fn parse_g1_point(x_str: &str, y_str: &str) -> (r: Result<G1Point, ProofParseError>)
    ensures
        match first_bad(seq![x_str@, y_str@]) {
            None => r matches Ok(p) && g1_from_values(p, fq_of(x_str@), fq_of(y_str@)),
            Some(t) => r matches Err(e) && reports(e, ParseFailure::Element(t)),
        },
{
    proof {
        lemma_first_bad_pair(x_str@, y_str@);
    }
    let x = match parse_fq_element(x_str) {
        Ok(x) => x,
        Err(e) => return Err(e),
    };
    let y = match parse_fq_element(y_str) {
        Ok(y) => y,
        Err(e) => return Err(e),
    };
    Ok(G1Point::from_coordinates(x, y))
}

/// Builds a point of the extension-field group from `[[x.c0, x.c1], [y.c0, y.c1]]`.
pub fn parse_g2_point(coords: &Vec<Vec<String>>) -> (r: Result<G2Point, ProofParseError>)
    requires
        coords@.len() == 2,
    ensures
        ({
            let b = coords.deep_view();
            if b[0].len() != 2 || b[1].len() != 2 {
                r matches Err(e) && reports(e, ParseFailure::G2Format)
            } else {
                match first_bad(b[0] + b[1]) {
                    None => r matches Ok(p) && g2_from_values(
                        p,
                        fq_of(b[0][0]),
                        fq_of(b[0][1]),
                        fq_of(b[1][0]),
                        fq_of(b[1][1]),
                    ),
                    Some(t) => r matches Err(e) && reports(e, ParseFailure::Element(t)),
                }
            }
        }),
{
    let ghost b = coords.deep_view();
    if coords[0].len() != 2 {
        return Err(ProofParseError::InvalidG2Format("pi_b[0] must hold two components".to_owned()));
    }
    if coords[1].len() != 2 {
        return Err(ProofParseError::InvalidG2Format("pi_b[1] must hold two components".to_owned()));
    }
    proof {
        assert(b[0] =~= seq![b[0][0], b[0][1]]);
        assert(b[1] =~= seq![b[1][0], b[1][1]]);
        lemma_first_bad_pair(b[0][0], b[0][1]);
        lemma_first_bad_pair(b[1][0], b[1][1]);
        lemma_first_bad_append(b[0], b[1]);
    }
    let c0_x = match parse_fq_element(coords[0][0].as_str()) {
        Ok(v) => v,
        Err(e) => return Err(e),
    };
    let c1_x = match parse_fq_element(coords[0][1].as_str()) {
        Ok(v) => v,
        Err(e) => return Err(e),
    };
    let c0_y = match parse_fq_element(coords[1][0].as_str()) {
        Ok(v) => v,
        Err(e) => return Err(e),
    };
    let c1_y = match parse_fq_element(coords[1][1].as_str()) {
        Ok(v) => v,
        Err(e) => return Err(e),
    };
    let x = Fq2::new(c0_x, c1_x);
    let y = Fq2::new(c0_y, c1_y);
    Ok(G2Point::from_coordinates(x, y))
}

/// Reduces every public signal into the scalar field, in order, stopping at the
/// first that does not decode.
pub fn parse_public_inputs(signals: &Vec<String>) -> (r: Result<Vec<Fr>, ProofParseError>)
    ensures
        match first_bad(signals.deep_view()) {
            None => r matches Ok(v) && scalars_of(v@, signals.deep_view()),
            Some(t) => r matches Err(e) && reports(e, ParseFailure::Element(t)),
        },
{
    let ghost ss = signals.deep_view();
    let n = signals.len();
    let mut inputs: Vec<Fr> = Vec::new();
    let mut i: usize = 0;
    while i < n
        invariant
            n == signals@.len(),
            ss == signals.deep_view(),
            i <= n,
            first_bad(ss.take(i as int)) is None,
            scalars_of(inputs@, ss.take(i as int)),
        decreases n - i,
    {
        proof {
            assert(ss.take(i + 1) =~= ss.take(i as int) + seq![ss[i as int]]);
            lemma_first_bad_append(ss.take(i as int), seq![ss[i as int]]);
            lemma_first_bad_single(ss[i as int]);
        }
        match parse_fr_element(signals[i].as_str()) {
            Ok(e) => {
                inputs.push(e);
            },
            Err(e) => {
                proof {
                    assert(ss =~= ss.take(i + 1) + ss.skip(i + 1));
                    lemma_first_bad_append(ss.take(i + 1), ss.skip(i + 1));
                }
                return Err(e);
            },
        }
        i += 1;
    }
    assert(ss.take(n as int) =~= ss);
    Ok(inputs)
}

impl SnarkJSProof {
    /// Checks the shape of the proof, then turns every coordinate into a base-field
    /// element and every public signal into a scalar-field element. The first
    /// failure met ends the parse.
    pub fn to_arkworks_proof(&self) -> (r: Result<ParsedProof, ProofParseError>)
        ensures
            match first_failure(self) {
                None => r matches Ok(q) && parsed_from(q, self),
                Some(f) => r matches Err(e) && reports(e, f),
            },
    {
        if self.pi_a.len() != 2 {
            return Err(ProofParseError::InvalidPiALength { expected: 2, got: self.pi_a.len() });
        }
        if self.pi_b.len() != 2 {
            return Err(ProofParseError::InvalidPiBLength { expected: 2, got: self.pi_b.len() });
        }
        if self.pi_c.len() != 2 {
            return Err(ProofParseError::InvalidPiCLength { expected: 2, got: self.pi_c.len() });
        }
        proof {
            let a = self.pi_a.deep_view();
            let c = self.pi_c.deep_view();
            assert(a =~= seq![a[0], a[1]]);
            assert(c =~= seq![c[0], c[1]]);
        }
        let pi_a = match parse_g1_point(self.pi_a[0].as_str(), self.pi_a[1].as_str()) {
            Ok(p) => p,
            Err(e) => return Err(e),
        };
        let pi_b = match parse_g2_point(&self.pi_b) {
            Ok(p) => p,
            Err(e) => return Err(e),
        };
        let pi_c = match parse_g1_point(self.pi_c[0].as_str(), self.pi_c[1].as_str()) {
            Ok(p) => p,
            Err(e) => return Err(e),
        };
        let public_inputs = match parse_public_inputs(&self.public_signals) {
            Ok(v) => v,
            Err(e) => return Err(e),
        };
        Ok(ParsedProof { pi_a, pi_b, pi_c, public_inputs })
    }
}

/// A small well-formed proof: `pi_a = [1, 2]`, `pi_b = [[1, 0], [2, 0]]`,
/// `pi_c = [3, 4]` and the single public signal `208`.
pub fn create_dummy_proof() -> (r: SnarkJSProof)
    ensures
        r.pi_a.deep_view() == seq![seq!['1'], seq!['2']],
        r.pi_b.deep_view() == seq![
            seq![seq!['1'], seq!['0']],
            seq![seq!['2'], seq!['0']],
        ],
        r.pi_c.deep_view() == seq![seq!['3'], seq!['4']],
        r.public_signals.deep_view() == seq![seq!['2', '0', '8']],
{
    proof {
        reveal_strlit("0");
        reveal_strlit("1");
        reveal_strlit("2");
        reveal_strlit("3");
        reveal_strlit("4");
        reveal_strlit("208");
        assert("1"@ =~= seq!['1']);
        assert("2"@ =~= seq!['2']);
        assert("0"@ =~= seq!['0']);
        assert("3"@ =~= seq!['3']);
        assert("4"@ =~= seq!['4']);
        assert("208"@ =~= seq!['2', '0', '8']);
    }
    let pi_a = string_pair("1", "2");
    let b0 = string_pair("1", "0");
    let b1 = string_pair("2", "0");
    let mut pi_b: Vec<Vec<String>> = Vec::new();
    pi_b.push(b0);
    pi_b.push(b1);
    let pi_c = string_pair("3", "4");
    let mut public_signals: Vec<String> = Vec::new();
    public_signals.push("208".to_owned());
    proof {
        assert(pi_a.deep_view() =~= seq![seq!['1'], seq!['2']]);
        assert(pi_b.deep_view() =~= seq![b0.deep_view(), b1.deep_view()]);
        assert(b0.deep_view() =~= seq![seq!['1'], seq!['0']]);
        assert(b1.deep_view() =~= seq![seq!['2'], seq!['0']]);
        assert(pi_c.deep_view() =~= seq![seq!['3'], seq!['4']]);
        assert(public_signals.deep_view() =~= seq![seq!['2', '0', '8']]);
    }
    SnarkJSProof { pi_a, pi_b, pi_c, public_signals }
}

fn string_pair(x: &str, y: &str) -> (r: Vec<String>)
    ensures
        r.deep_view() == seq![x@, y@],
{
    let mut r: Vec<String> = Vec::new();
    r.push(x.to_owned());
    r.push(y.to_owned());
    assert(r.deep_view() =~= seq![x@, y@]);
    r
}

proof fn lemma_zero_string_decodes_to_zero()
    ensures
        decoded_integer(seq!['0']) == Some(0nat),
        fq_of(seq!['0']) == 0,
{
    let z = seq!['0'];
    assert(trim_quotes(z) == z);
    assert(codes(z) =~= seq![48nat]);
    assert(codes(z).drop_last() =~= Seq::<nat>::empty());
    assert(is_decimal(codes(z)));
    assert(codes(z).last() == 48);
    assert(decimal_value(Seq::<nat>::empty()) == 0);
    assert(decimal_value(codes(z)) == 0);
    assert(fq_modulus() > 0);
    assert(0nat % fq_modulus() == 0);
}

/// A proof whose coordinates are all `"0"` and whose public signals all decode
/// parses without error, and each of its three points is the point at infinity.
pub proof fn lemma_zero_coordinates_give_identities(p: &SnarkJSProof, q: ParsedProof)
    requires
        p.pi_a.deep_view() == seq![seq!['0'], seq!['0']],
        p.pi_b.deep_view() == seq![seq![seq!['0'], seq!['0']], seq![seq!['0'], seq!['0']]],
        p.pi_c.deep_view() == seq![seq!['0'], seq!['0']],
        first_bad(p.public_signals.deep_view()) is None,
    ensures
        first_failure(p) is None,
        parsed_from(q, p) ==> q.pi_a is Identity && q.pi_b is Identity && q.pi_c is Identity,
{
    let z = seq!['0'];
    lemma_zero_string_decodes_to_zero();
    lemma_first_bad_pair(z, z);
    assert(seq![z, z] + seq![z, z] =~= seq![z, z, z, z]);
    lemma_first_bad_append(seq![z, z], seq![z, z]);
}

/// A `pi_a` that does not hold exactly two coordinates is the failure reported,
/// before anything else is looked at.
pub proof fn lemma_pi_a_length_reported_first(p: &SnarkJSProof)
    requires
        p.pi_a@.len() != 2,
    ensures
        first_failure(p) == Some(ParseFailure::PiALength(p.pi_a@.len())),
{
}

} // verus!
