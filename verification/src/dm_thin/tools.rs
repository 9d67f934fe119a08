//! The programs of the thin provisioning tools.
use crate::command;
use crate::command::Cmd;
use crate::deeds;
use crate::deeds::Deed;
use crate::dm_thin;
use crate::dm_thin::pool;
use crate::error::Error;
use crate::text;
use vstd::prelude::*;

verus! {

/// Asks for the recommended size of a metadata device.
pub fn metadata_size(pool_size_bytes: u64, block_size_bytes: u64, max_thins: u64) -> (r: Cmd)
    ensures
        r@ == command::cmd(
            "thin_metadata_size"@,
            seq![
                "--block-size"@,
                text::dec(block_size_bytes as nat),
                "--pool-size"@,
                text::dec(pool_size_bytes as nat),
                "--max-thins"@,
                text::dec(max_thins as nat),
                "--numeric-only"@,
                "--unit"@,
                "b"@,
            ],
            "thin_metadata_size"@,
            "thin_metadata_size"@,
        ),
        command::option_is(
            r@.args.take(6),
            0,
            "--block-size"@,
            text::dec(block_size_bytes as nat),
        ),
        command::option_is(r@.args.take(6), 0, "--pool-size"@, text::dec(pool_size_bytes as nat)),
        command::option_is(r@.args.take(6), 0, "--max-thins"@, text::dec(max_thins as nat)),
        r@.args.skip(6) == seq!["--numeric-only"@, "--unit"@, "b"@],
{
    let b = text::dec_u64(block_size_bytes);
    let p = text::dec_u64(pool_size_bytes);
    let m = text::dec_u64(max_thins);
    let r = command::command(
        "thin_metadata_size",
        &[
            "--block-size",
            b.as_str(),
            "--pool-size",
            p.as_str(),
            "--max-thins",
            m.as_str(),
            "--numeric-only",
            "--unit",
            "b",
        ],
        "thin_metadata_size",
        "thin_metadata_size",
    );
    assert(r@.args =~= seq![
        "--block-size"@,
        text::dec(block_size_bytes as nat),
        "--pool-size"@,
        text::dec(pool_size_bytes as nat),
        "--max-thins"@,
        text::dec(max_thins as nat),
        "--numeric-only"@,
        "--unit"@,
        "b"@,
    ]);
    proof {
        reveal_strlit("--block-size");
        reveal_strlit("--pool-size");
        reveal_strlit("--max-thins");
        assert("--block-size"@.len() == 12 && "--pool-size"@.len() == 11);
        assert("--max-thins"@.len() == 11 && "--pool-size"@[2] == 'p' && "--max-thins"@[2] == 'm');
        let a = r@.args.take(6);
        assert(a[0] == "--block-size"@ && a[2] == "--pool-size"@ && a[4] == "--max-thins"@);
        assert forall|i: int| 0 <= i < 5 && #[trigger] (i % 2) == 0 implies i == 0 || i == 2 || i
            == 4 by {}
        command::lemma_option(a, 0, 0, "--block-size"@, text::dec(block_size_bytes as nat));
        command::lemma_option(a, 0, 2, "--pool-size"@, text::dec(pool_size_bytes as nat));
        command::lemma_option(a, 0, 4, "--max-thins"@, text::dec(max_thins as nat));
        assert(r@.args.skip(6) =~= seq!["--numeric-only"@, "--unit"@, "b"@]);
    }
    r
}

/// The error of a program that printed something else than a number, given how that
/// is shown.
pub fn not_a_number(program: &str, what: &str, shown: &str, why: text::IntError) -> (e: Error)
    ensures
        pool::is_complaint(
            e,
            program@,
            "non-numeric "@ + what@ + " "@ + shown@ + ": "@ + why.text(),
        ),
{
    Error::Command {
        command: program.to_owned(),
        exit_code: 0,
        stderr: text::cat6("non-numeric ", what, " ", shown, ": ", why.message()),
    }
}

/// Reads a number that a program printed, with white space around it. `what` says
/// what the number is of.
pub fn parse_number(program: &str, what: &str, stdout: &str) -> (r: Result<u64, Error>)
    ensures
        match r {
            Ok(n) => text::parse_uint(text::trim(stdout@), u64::MAX as nat) == Ok::<
                nat,
                text::IntError,
            >(n as nat),
            Err(e) => text::parse_uint(text::trim(stdout@), u64::MAX as nat) is Err
                && pool::is_complaint(
                e,
                program@,
                "non-numeric "@ + what@ + " "@ + dm_thin::debug_text(text::trim(stdout@)) + ": "@
                    + text::parse_uint(text::trim(stdout@), u64::MAX as nat)->Err_0.text(),
            ),
        },
{
    let t = text::trimmed(stdout);
    match text::parse_uint_str(t.as_str(), u64::MAX) {
        Ok(n) => Ok(n),
        Err(e) => Err(
            not_a_number(program, what, dm_thin::debug_str(t.as_str()).as_str(), e),
        ),
    }
}

/// Reads the answer to [`metadata_size`].
pub fn parse_metadata_size(stdout: &str) -> (r: Result<u64, Error>)
    ensures
        match r {
            Ok(n) => text::parse_uint(text::trim(stdout@), u64::MAX as nat) == Ok::<
                nat,
                text::IntError,
            >(n as nat),
            Err(e) => text::parse_uint(text::trim(stdout@), u64::MAX as nat) is Err
                && pool::is_complaint(
                e,
                "thin_metadata_size"@,
                "non-numeric "@ + "output"@ + " "@ + dm_thin::debug_text(text::trim(stdout@))
                    + ": "@ + text::parse_uint(
                    text::trim(stdout@),
                    u64::MAX as nat,
                )->Err_0.text(),
            ),
        },
{
    parse_number("thin_metadata_size", "output", stdout)
}

/// Checks a metadata device. A pool is not activated from one that fails.
pub fn check(metadata_dev: &str) -> (r: Cmd)
    ensures
        r@ == command::cmd("thin_check"@, seq![metadata_dev@], "thin_check"@, "thin_check"@),
        deeds::thin_check(r@) == Some(Deed::CheckMetadata { device: metadata_dev@ }),
{
    let r = command::command("thin_check", &[metadata_dev], "thin_check", "thin_check");
    assert(r@.args =~= seq![metadata_dev@]);
    r
}

/// Writes a clean copy of a metadata device to another one.
pub fn repair(input: &str, output: &str) -> (r: Cmd)
    ensures
        r@ == command::cmd("thin_repair"@, seq!["-i"@, input@, "-o"@, output@], "thin_repair"@, "thin_repair"@),
        deeds::thin_repair(r@) == Some(Deed::MendMetadata { input: input@, output: output@ }),
{
    proof {
        deeds::lemma_thin_repair();
    }
    let r = command::command("thin_repair", &["-i", input, "-o", output], "thin_repair", "thin_repair");
    assert(r@.args =~= seq!["-i"@, input@, "-o"@, output@]);
    r
}

/// Prints what a metadata device holds, as XML.
pub fn dump(metadata_dev: &str) -> (r: Cmd)
    ensures
        r@ == command::cmd("thin_dump"@, seq![metadata_dev@], "thin_dump"@, "thin_dump"@),
        deeds::thin_dump(r@) == Some(Deed::ShowMetadata { device: metadata_dev@ }),
{
    let r = command::command("thin_dump", &[metadata_dev], "thin_dump", "thin_dump");
    assert(r@.args =~= seq![metadata_dev@]);
    r
}

} // verus!
