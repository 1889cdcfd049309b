//! Masking credentials out of a supervised process's argument vector.

use vstd::prelude::*;

use crate::text::str_eq;

verus! {

/// The text that replaces a credential.
pub open spec fn mask() -> Seq<char> {
    "<redacted>"@
}

/// The flags whose following argument is a credential.
pub open spec fn is_secret_flag(arg: Seq<char>) -> bool {
    arg == "--accessToken"@ || arg == "--session"@
}

/// Whether the argument at `i` is masked: it follows a secret flag that was
/// not itself consumed as a masked value.
pub open spec fn masked_at(args: Seq<Seq<char>>, i: int) -> bool
    decreases i,
{
    if i <= 0 {
        false
    } else {
        !masked_at(args, i - 1) && is_secret_flag(args[i - 1])
    }
}

fn secret_flag(arg: &String) -> (r: bool)
    ensures
        r == is_secret_flag(arg@),
{
    str_eq(arg.as_str(), "--accessToken") || str_eq(arg.as_str(), "--session")
}

/// `args` with every credential replaced by a fixed mask. Each argument that
/// follows `--accessToken` or `--session` is masked, unless that flag was
/// itself the masked value of an earlier flag; nothing is added or dropped.
pub fn redact(args: &Vec<String>) -> (out: Vec<String>)
    ensures
        out.deep_view() == redacted(args.deep_view()),
        out@.len() == args@.len(),
        forall|i: int|
            0 <= i < args@.len() ==> (#[trigger] out@[i])@ == (if masked_at(args.deep_view(), i) {
                mask()
            } else {
                args@[i]@
            }),
{
    let ghost dv = args.deep_view();
    let mut out: Vec<String> = Vec::new();
    let mut mask_next = false;
    let mut i: usize = 0;
    while i < args.len()
        invariant
            dv == args.deep_view(),
            i <= args@.len(),
            out@.len() == i,
            mask_next == masked_at(dv, i as int),
            forall|j: int|
                0 <= j < i ==> (#[trigger] out@[j])@ == (if masked_at(dv, j) {
                    mask()
                } else {
                    args@[j]@
                }),
        decreases args.len() - i,
    {
        let arg = &args[i];
        assert(dv[i as int] == arg@);
        if mask_next {
            out.push(String::from_str("<redacted>"));
            mask_next = false;
        } else {
            mask_next = secret_flag(arg);
            out.push(arg.clone());
        }
        i += 1;
    }
    assert(out.deep_view() =~= redacted(dv));
    out
}

/// An argument list after redaction.
pub open spec fn redacted(args: Seq<Seq<char>>) -> Seq<Seq<char>> {
    Seq::new(args.len(), |i: int| if masked_at(args, i) {
        mask()
    } else {
        args[i]
    })
}

proof fn lemma_same_masks(args: Seq<Seq<char>>, i: int)
    requires
        0 <= i <= args.len(),
    ensures
        masked_at(redacted(args), i) == masked_at(args, i),
    decreases i,
{
    if i > 0 {
        lemma_same_masks(args, i - 1);
        reveal_strlit("<redacted>");
        reveal_strlit("--accessToken");
        reveal_strlit("--session");
        assert(mask()[0] == '<');
        assert("--accessToken"@[0] == '-');
        assert("--session"@[0] == '-');
        assert(!is_secret_flag(mask()));
    }
}

/// Redacting an already redacted argument list changes nothing: a mask is
/// no flag, so the same arguments stay masked and nothing new is.
pub proof fn lemma_redact_idempotent(args: Seq<Seq<char>>)
    ensures
        redacted(redacted(args)) == redacted(args),
{
    assert forall|i: int| 0 <= i < args.len() implies #[trigger] redacted(redacted(args))[i] == redacted(args)[i] by {
        lemma_same_masks(args, i);
    }
    assert(redacted(redacted(args)) =~= redacted(args));
}

} // verus!
