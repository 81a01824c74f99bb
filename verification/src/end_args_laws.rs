//! Laws of `endCommandArgs`: under `match`, a block closer repeats the
//! arguments of the opener it closes.
use vstd::prelude::*;
use vstd::string::StringSliceAdditionalSpecFns;

use crate::ast::ArgModel;
use crate::config::EndCommandArgs;
use crate::gen_file::{end_args, StackModel};
use crate::key_laws::lemma_ascii_lit;
use crate::text::ci_eq;

verus! {

/// `n` is a block closer (in any ASCII case) of blocks opened by `o`:
/// `endif` of `if`, `endwhile` of `while`, `endmacro` of `macro`,
/// `endforeach` of `foreach`, `endfunction` of `function`; or `else`, which
/// refers to the open `if`.
pub open spec fn refers_to(n: Seq<u8>, o: Seq<u8>) -> bool {
    ||| ci_eq(n, "endif".spec_bytes()) && o == "if".spec_bytes()
    ||| ci_eq(n, "endwhile".spec_bytes()) && o == "while".spec_bytes()
    ||| ci_eq(n, "endmacro".spec_bytes()) && o == "macro".spec_bytes()
    ||| ci_eq(n, "endforeach".spec_bytes()) && o == "foreach".spec_bytes()
    ||| ci_eq(n, "endfunction".spec_bytes()) && o == "function".spec_bytes()
    ||| ci_eq(n, "else".spec_bytes()) && o == "if".spec_bytes()
}

proof fn lemma_block_words()
    ensures
        "if".spec_bytes() == seq![105u8, 102u8],
        "while".spec_bytes() == seq![119u8, 104u8, 105u8, 108u8, 101u8],
        "macro".spec_bytes() == seq![109u8, 97u8, 99u8, 114u8, 111u8],
        "block".spec_bytes() == seq![98u8, 108u8, 111u8, 99u8, 107u8],
        "foreach".spec_bytes() == seq![102u8, 111u8, 114u8, 101u8, 97u8, 99u8, 104u8],
        "function".spec_bytes() == seq![102u8, 117u8, 110u8, 99u8, 116u8, 105u8, 111u8, 110u8],
        "else".spec_bytes() == seq![101u8, 108u8, 115u8, 101u8],
        "elseif".spec_bytes() == seq![101u8, 108u8, 115u8, 101u8, 105u8, 102u8],
        "endif".spec_bytes() == seq![101u8, 110u8, 100u8, 105u8, 102u8],
        "endwhile".spec_bytes() == seq![101u8, 110u8, 100u8, 119u8, 104u8, 105u8, 108u8, 101u8],
        "endmacro".spec_bytes() == seq![101u8, 110u8, 100u8, 109u8, 97u8, 99u8, 114u8, 111u8],
        "endblock".spec_bytes() == seq![101u8, 110u8, 100u8, 98u8, 108u8, 111u8, 99u8, 107u8],
        "endforeach".spec_bytes() == seq![101u8, 110u8, 100u8, 102u8, 111u8, 114u8, 101u8, 97u8, 99u8, 104u8],
        "endfunction".spec_bytes() == seq![101u8, 110u8, 100u8, 102u8, 117u8, 110u8, 99u8, 116u8, 105u8, 111u8, 110u8],
{
    reveal_strlit("if");
    reveal_strlit("while");
    reveal_strlit("macro");
    reveal_strlit("block");
    reveal_strlit("foreach");
    reveal_strlit("function");
    reveal_strlit("else");
    reveal_strlit("elseif");
    reveal_strlit("endif");
    reveal_strlit("endwhile");
    reveal_strlit("endmacro");
    reveal_strlit("endblock");
    reveal_strlit("endforeach");
    reveal_strlit("endfunction");
    lemma_ascii_lit("if");
    lemma_ascii_lit("while");
    lemma_ascii_lit("macro");
    lemma_ascii_lit("block");
    lemma_ascii_lit("foreach");
    lemma_ascii_lit("function");
    lemma_ascii_lit("else");
    lemma_ascii_lit("elseif");
    lemma_ascii_lit("endif");
    lemma_ascii_lit("endwhile");
    lemma_ascii_lit("endmacro");
    lemma_ascii_lit("endblock");
    lemma_ascii_lit("endforeach");
    lemma_ascii_lit("endfunction");
    assert("if".spec_bytes() =~= seq![105u8, 102u8]);
    assert("while".spec_bytes() =~= seq![119u8, 104u8, 105u8, 108u8, 101u8]);
    assert("macro".spec_bytes() =~= seq![109u8, 97u8, 99u8, 114u8, 111u8]);
    assert("block".spec_bytes() =~= seq![98u8, 108u8, 111u8, 99u8, 107u8]);
    assert("foreach".spec_bytes() =~= seq![102u8, 111u8, 114u8, 101u8, 97u8, 99u8, 104u8]);
    assert("function".spec_bytes() =~= seq![102u8, 117u8, 110u8, 99u8, 116u8, 105u8, 111u8, 110u8]);
    assert("else".spec_bytes() =~= seq![101u8, 108u8, 115u8, 101u8]);
    assert("elseif".spec_bytes() =~= seq![101u8, 108u8, 115u8, 101u8, 105u8, 102u8]);
    assert("endif".spec_bytes() =~= seq![101u8, 110u8, 100u8, 105u8, 102u8]);
    assert("endwhile".spec_bytes() =~= seq![101u8, 110u8, 100u8, 119u8, 104u8, 105u8, 108u8, 101u8]);
    assert("endmacro".spec_bytes() =~= seq![101u8, 110u8, 100u8, 109u8, 97u8, 99u8, 114u8, 111u8]);
    assert("endblock".spec_bytes() =~= seq![101u8, 110u8, 100u8, 98u8, 108u8, 111u8, 99u8, 107u8]);
    assert("endforeach".spec_bytes() =~= seq![101u8, 110u8, 100u8, 102u8, 111u8, 114u8, 101u8, 97u8, 99u8, 104u8]);
    assert("endfunction".spec_bytes() =~= seq![101u8, 110u8, 100u8, 102u8, 117u8, 110u8, 99u8, 116u8, 105u8, 111u8, 110u8]);
}

/// Under `endCommandArgs = match`, a block closer (or `else`) whose opener,
/// innermost on the block stack, has arguments gets exactly those
/// arguments, whatever arguments it was written with.
#[verifier::rlimit(100)]
pub proof fn law_match_repeats_opener_args(n: Seq<u8>, a: Seq<ArgModel>, m: StackModel, o: Seq<u8>, oa: Seq<ArgModel>)
    requires
        refers_to(n, o),
        oa.len() > 0,
    ensures
        end_args(n, a, EndCommandArgs::Match, m.push((o, oa))) == Some(oa),
{
    lemma_block_words();
    let m2 = m.push((o, oa));
    assert(m2[m2.len() - 1] == (o, oa));
    assert(m2.drop_last() =~= m);
}


/// Whatever the mode, `elseif` and commands that are not block closers (nor
/// `else`) are kept as written; under `preserve` so is every command.
pub proof fn law_end_args_keep(n: Seq<u8>, a: Seq<ArgModel>, mode: EndCommandArgs, m: StackModel)
    ensures
        ci_eq(n, "elseif".spec_bytes()) ==> end_args(n, a, mode, m) is None,
        !ci_eq(n, "else".spec_bytes()) && crate::gen_file::block_role(n) != crate::gen_file::BlockRole::Closer
            ==> end_args(n, a, mode, m) is None,
        end_args(n, a, EndCommandArgs::Preserve, m) is None,
{
    lemma_block_words();
}

/// Under `remove`, a block closer (or `else`) written with arguments loses
/// them, and one written without them is kept as it is; so is `endblock`
/// under `match`.
pub proof fn law_end_args_remove(n: Seq<u8>, a: Seq<ArgModel>, m: StackModel, o: Seq<u8>)
    requires
        refers_to(n, o) || ci_eq(n, "endblock".spec_bytes()),
    ensures
        end_args(n, a, EndCommandArgs::Remove, m) == (if a.len() > 0 { Some(Seq::<ArgModel>::empty()) } else { None }),
        ci_eq(n, "endblock".spec_bytes()) ==> end_args(n, a, EndCommandArgs::Match, m)
            == (if a.len() > 0 { Some(Seq::<ArgModel>::empty()) } else { None }),
{
    lemma_block_words();
}

/// Under `match`, a closer whose opener on the stack has no arguments loses
/// its own (and is kept when it has none), and a closer with no open block of
/// its kind is kept as written.
pub proof fn law_match_without_opener_args(n: Seq<u8>, a: Seq<ArgModel>, m: StackModel, o: Seq<u8>)
    requires
        refers_to(n, o),
    ensures
        end_args(n, a, EndCommandArgs::Match, m.push((o, Seq::empty())))
            == (if a.len() > 0 { Some(Seq::<ArgModel>::empty()) } else { None }),
        (forall|k: int| 0 <= k < m.len() ==> (#[trigger] m[k]).0 != o) ==> end_args(n, a, EndCommandArgs::Match, m) is None,
{
    lemma_block_words();
    let m2 = m.push((o, Seq::<ArgModel>::empty()));
    assert(m2[m2.len() - 1] == (o, Seq::<ArgModel>::empty()));
    if forall|k: int| 0 <= k < m.len() ==> (#[trigger] m[k]).0 != o {
        lemma_no_key(m, o);
    }
}

proof fn lemma_no_key(m: StackModel, o: Seq<u8>)
    requires
        forall|k: int| 0 <= k < m.len() ==> (#[trigger] m[k]).0 != o,
    ensures
        crate::gen_file::last_with_key(m, o) is None,
    decreases m.len(),
{
    if m.len() > 0 {
        let d = m.drop_last();
        assert forall|k: int| 0 <= k < d.len() implies (#[trigger] d[k]).0 != o by {
            assert(d[k] == m[k]);
        }
        lemma_no_key(d, o);
    }
}

} // verus!
