//! The rules for what the command line must hold.

use vstd::prelude::*;
use vstd::string::*;
use vstd::utf8::encode_utf8;

verus! {

/// The number of arguments that a call takes, the program's name included.
pub const ARGUMENT_COUNT: usize = 2;

/// The bytes of `.molgy`, the ending of a source file's name.
pub open spec fn source_suffix() -> Seq<u8> {
    seq![0x2eu8, 0x6du8, 0x6fu8, 0x6cu8, 0x67u8, 0x79u8]
}

/// Whether `bytes` ends with `suffix`.
pub open spec fn ends_with(bytes: Seq<u8>, suffix: Seq<u8>) -> bool {
    bytes.len() >= suffix.len() && bytes.subrange(bytes.len() - suffix.len(), bytes.len() as int)
        == suffix
}

/// Whether the command line holds the program's name and one argument.
pub fn valid_argument_count(args: &Vec<String>) -> (valid: bool)
    ensures
        valid == (args@.len() == ARGUMENT_COUNT),
{
    args.len() == ARGUMENT_COUNT
}

/// Whether the path names a source file: whether its bytes end with those of
/// `.molgy`.
pub fn valid_file_type(file_path: &String) -> (valid: bool)
    ensures
        valid == ends_with(encode_utf8(file_path@), source_suffix()),
{
    let bytes = file_path.as_str().as_bytes();
    let n = bytes.len();
    if n < 6 {
        return false;
    }
    let valid = bytes[n - 6] == 0x2e && bytes[n - 5] == 0x6d && bytes[n - 4] == 0x6f && bytes[n
        - 3] == 0x6c && bytes[n - 2] == 0x67 && bytes[n - 1] == 0x79;
    proof {
        let tail = bytes@.subrange(n - 6, n as int);
        if valid {
            assert(tail =~= source_suffix());
        } else {
            assert(tail[0] == bytes@[n - 6]);
            assert(tail[1] == bytes@[n - 5]);
            assert(tail[2] == bytes@[n - 4]);
            assert(tail[3] == bytes@[n - 3]);
            assert(tail[4] == bytes@[n - 2]);
            assert(tail[5] == bytes@[n - 1]);
        }
    }
    valid
}

} // verus!
