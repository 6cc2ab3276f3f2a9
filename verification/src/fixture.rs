//! Naming for benchmark fixtures: a randomly named scratch directory and
//! the numbered files created inside it. Creating and removing them on
//! disk happens outside this crate; every name and path is built here.

use vstd::prelude::*;
use crate::format::dec_digits;
use crate::format::push_char;
use crate::format::u64_to_string;
use vstd::string::StringExecFns;

verus! {

/// Whether `b` is an ASCII letter or digit.
pub open spec fn is_alphanumeric_byte(b: u8) -> bool {
    (65 <= b <= 90) || (97 <= b <= 122) || (48 <= b <= 57)
}

/// Whether every character of `s` is an ASCII letter or digit.
pub open spec fn all_alphanumeric(s: Seq<char>) -> bool {
    forall|i: int|
        0 <= i < s.len() ==> is_alphanumeric_byte((#[trigger] s[i]) as u8) && (s[i] as u32) < 128
}

/// Relies on rand's Alphanumeric distribution: every sample is an ASCII
/// letter or digit; which one is the generator's choice.
#[verifier::external_body]
fn sample_alphanumeric_byte() -> (r: u8)
    ensures
        is_alphanumeric_byte(r),
{
    let mut rng = rand::rng();
    rand::RngExt::sample(&mut rng, rand::distr::Alphanumeric)
}

/// A fresh random name of `len` ASCII letters and digits.
pub fn random_temp_name(len: usize) -> (r: String)
    ensures
        r@.len() == len,
        all_alphanumeric(r@),
{
    let mut name = String::new();
    let mut i: usize = 0;
    while i < len
        invariant
            i <= len,
            name@.len() == i,
            all_alphanumeric(name@),
        decreases len - i,
    {
        let b = sample_alphanumeric_byte();
        push_char(&mut name, b as char);
        i = i + 1;
    }
    name
}

/// `name` inside `base`: the two joined by a backslash.
pub fn join_path(base: &str, name: &str) -> (r: String)
    ensures
        r@ == base@ + seq!['\\'] + name@,
{
    let mut p = String::from_str(base);
    push_char(&mut p, '\\');
    p.append(name);
    p
}

/// The name of the `i`th fixture file.
pub fn temp_file_name(i: u64) -> (r: String)
    ensures
        r@ == "file_"@ + dec_digits(i as nat) + ".txt"@,
{
    let mut s = String::from_str("file_");
    let digits = u64_to_string(i);
    s.append(digits.as_str());
    s.append(".txt");
    s
}

/// A scratch directory made for one benchmark run. The value records the
/// directory's path; whoever creates it on disk owns its lifetime.
pub struct UffsTempDir {
    path: String,
}

impl View for UffsTempDir {
    type V = Seq<char>;

    closed spec fn view(&self) -> Seq<char> {
        self.path@
    }
}

impl UffsTempDir {
    /// The record of a scratch directory at `base\name`.
    pub fn new_in(base: &str, name: &str) -> (r: UffsTempDir)
        ensures
            r@ == base@ + seq!['\\'] + name@,
    {
        UffsTempDir { path: join_path(base, name) }
    }

    /// Where the scratch directory is.
    pub fn path(&self) -> (r: &String)
        ensures
            r@ == self@,
    {
        &self.path
    }
}

/// The paths of the first `count` fixture files inside `dir`, in order.
pub fn temp_file_paths(dir: &str, count: u64) -> (r: Vec<String>)
    requires
        count <= usize::MAX,
    ensures
        r@.len() == count,
        forall|i: int|
            0 <= i < count ==> r.deep_view()[i] == dir@ + seq!['\\'] + "file_"@ + dec_digits(
                i as nat,
            ) + ".txt"@,
{
    let mut out: Vec<String> = Vec::new();
    let mut i: u64 = 0;
    while i < count
        invariant
            i <= count,
            out@.len() == i,
            forall|j: int|
                0 <= j < i ==> out.deep_view()[j] == dir@ + seq!['\\'] + "file_"@ + dec_digits(
                    j as nat,
                ) + ".txt"@,
        decreases count - i,
    {
        let name = temp_file_name(i);
        let p = join_path(dir, name.as_str());
        let ghost prev = out.deep_view();
        let ghost pv = p@;
        out.push(p);
        proof {
            assert(out.deep_view() =~= prev.push(pv));
        }
        i = i + 1;
    }
    out
}

} // verus!
