//! The `comment` declaration: a prompt shown as a separator line, with
//! optional dependencies. It nests nothing.
use vstd::prelude::*;
use crate::util::{comment_tok_end, line_end_tok, lit_at, match_lit, qstr_close, skip_space0,
    space_char, space_end, take_comment, take_line_ending};
use crate::attrs::{dependency_end, dependency_ok, prompt_end, prompt_ok, Dependency, Prompt};
use crate::koption::deps_list_ok;

verus! {

/// One `comment` declaration.
#[derive(Debug, PartialEq)]
pub struct KCommentBlock {
    pub prompt: Prompt,
    pub depends: Option<Vec<Dependency>>,
}

impl KCommentBlock {
    /// Parse `comment "<label>"` followed by any number of blank lines,
    /// `#` comments and `depends on` entries.
    pub fn parse(input: &str, pos: usize) -> (r: Option<(KCommentBlock, usize)>)
        requires
            pos <= input@.len(),
        ensures
            ({
                let s = input@;
                let k = space_end(s, pos as int);
                let ke = k + "comment"@.len();
                let k2 = space_end(s, space_end(s, ke) + ""@.len());
                match r {
                    Some(p) => {
                        &&& pos < p.1 <= s.len()
                        &&& lit_at(s, k, "comment"@)
                        &&& kcommentblock_end(s, pos as int) == Some(p.1 as int)
                        &&& k2 < s.len() && p.0.prompt.text.quote_char() == s[k2]
                        &&& (match qstr_close(s, s[k2], k2 + 1) {
                            Some(ce) => p.0.prompt.text.content_view() == s.subrange(k2 + 1, ce),
                            None => false,
                        })
                        &&& kcommentblock_node_ok(p.0, s, pos as int)
                        &&& (match p.0.depends {
                            Some(v) => v@.len() > 0,
                            None => true,
                        })
                    },
                    None => kcommentblock_end(s, pos as int) is None,
                }
            }),
    {
        let n = input.unicode_len();
        let k = skip_space0(input, pos);
        let kw_end = match match_lit(input, k, "comment") {
            Some(e) => e,
            None => {
                return None;
            },
        };
        proof {
            reveal_strlit("comment");
        }
        if kw_end >= n {
            return None;
        }
        let sp = input.get_char(kw_end);
        if !(sp == ' ' || sp == '\t') {
            return None;
        }
        let (prompt, prompt_start_end) = match Prompt::parse("", input, kw_end) {
            Some(p) => p,
            None => {
                return None;
            },
        };
        let mut depends: Vec<Dependency> = Vec::new();
        let ghost mut dp_pos: Seq<int> = Seq::empty();
        let mut cur = prompt_start_end;
        loop
            invariant
                pos < cur <= n,
                n == input@.len(),
                kcomment_body_end(input@, prompt_start_end as int) == kcomment_body_end(
                    input@,
                    cur as int,
                ),
                kcb_dep_positions(input@, prompt_start_end as int) == dp_pos + kcb_dep_positions(
                    input@,
                    cur as int,
                ),
                depends@.len() == dp_pos.len(),
                forall|i: int|
                    0 <= i < dp_pos.len() ==> dependency_ok(
                        #[trigger] depends@[i],
                        "depends on"@,
                        input@,
                        dp_pos[i],
                    ),
            ensures
                pos < cur <= n,
                kcomment_body_end(input@, prompt_start_end as int) == cur,
                kcb_dep_positions(input@, prompt_start_end as int) == dp_pos,
                depends@.len() == dp_pos.len(),
                forall|i: int|
                    0 <= i < dp_pos.len() ==> dependency_ok(
                        #[trigger] depends@[i],
                        "depends on"@,
                        input@,
                        dp_pos[i],
                    ),
            decreases n - cur,
        {
            if let Some(e) = take_line_ending(input, cur) {
                proof {
                    lemma_kcb_collect_step(input@, cur as int, e as int, dp_pos);
                }
                cur = e;
                continue ;
            }
            if let Some(e) = take_comment(input, cur) {
                proof {
                    lemma_kcb_collect_step(input@, cur as int, e as int, dp_pos);
                }
                cur = e;
                continue ;
            }
            if let Some((v, e)) = Dependency::parse("depends on", input, cur) {
                proof {
                    lemma_kcb_collect_step(input@, cur as int, e as int, dp_pos);
                    dp_pos = dp_pos.push(cur as int);
                }
                depends.push(v);
                cur = e;
                continue ;
            }
            proof {
                assert(dp_pos + Seq::<int>::empty() =~= dp_pos);
            }
            break ;
        }
        Some((KCommentBlock {
            prompt,
            depends: if depends.is_empty() {
                None
            } else {
                Some(depends)
            },
        }, cur))
    }
}

} // verus!

verus! {

/// One body production of a comment block: a blank line, a `#` comment, or
/// a `depends on` entry.
pub open spec fn kcomment_step(s: Seq<char>, cur: int) -> Option<int> {
    if line_end_tok(s, cur) is Some {
        line_end_tok(s, cur)
    } else if comment_tok_end(s, cur) is Some {
        comment_tok_end(s, cur)
    } else {
        dependency_end("depends on"@, s, cur)
    }
}

/// The greedy run of comment-block body productions from `cur` on.
pub open spec fn kcomment_body_end(s: Seq<char>, cur: int) -> int
    decreases s.len() - cur when 0 <= cur <= s.len()
{
    match kcomment_step(s, cur) {
        Some(e) => if cur < e <= s.len() {
            kcomment_body_end(s, e)
        } else {
            cur
        },
        None => cur,
    }
}

/// Whether the body production taken at `c` is a `depends on` entry.
pub open spec fn kcb_takes_dep(s: Seq<char>, c: int) -> bool {
    line_end_tok(s, c) is None && comment_tok_end(s, c) is None && dependency_end(
        "depends on"@,
        s,
        c,
    ) is Some
}

/// The positions, in order, at which the comment-block body run from `cur`
/// takes a `depends on` entry.
pub open spec fn kcb_dep_positions(s: Seq<char>, cur: int) -> Seq<int>
    decreases s.len() - cur when 0 <= cur <= s.len()
{
    match kcomment_step(s, cur) {
        Some(e) => if cur < e <= s.len() {
            (if kcb_takes_dep(s, cur) {
                seq![cur]
            } else {
                Seq::<int>::empty()
            }) + kcb_dep_positions(s, e)
        } else {
            Seq::empty()
        },
        None => Seq::empty(),
    }
}

/// Everything a parsed comment block's fields say about the input: its
/// prompt payload and its dependency entries, each tied to the production
/// its body run takes.
pub open spec fn kcommentblock_node_ok(cb: KCommentBlock, s: Seq<char>, pos: int) -> bool {
    let k = space_end(s, pos);
    let ke = k + "comment"@.len();
    &&& prompt_ok(cb.prompt, ""@, s, ke)
    &&& (match prompt_end(""@, s, ke) {
        Some(pe) => deps_list_ok(cb.depends, "depends on"@, s, kcb_dep_positions(s, pe)),
        None => false,
    })
}

/// Where a whole `comment` declaration standing at `pos` ends.
/// `KCommentBlock::parse` returns `Some` exactly when this does.
pub open spec fn kcommentblock_end(s: Seq<char>, pos: int) -> Option<int> {
    let k = space_end(s, pos);
    if lit_at(s, k, "comment"@) {
        let ke = k + "comment"@.len();
        if ke < s.len() && space_char(s[ke]) {
            match prompt_end(""@, s, ke) {
                Some(pe) => Some(kcomment_body_end(s, pe)),
                None => None,
            }
        } else {
            None
        }
    } else {
        None
    }
}

} // verus!

verus! {

/// One step of the comment-block dependency collector.
proof fn lemma_kcb_collect_step(s: Seq<char>, cur: int, e: int, pre: Seq<int>)
    requires
        0 <= cur < e <= s.len(),
        kcomment_step(s, cur) == Some(e),
    ensures
        pre + kcb_dep_positions(s, cur) == (if kcb_takes_dep(s, cur) {
            pre.push(cur)
        } else {
            pre
        }) + kcb_dep_positions(s, e),
{
    if kcb_takes_dep(s, cur) {
        assert(pre + (seq![cur] + kcb_dep_positions(s, e)) =~= pre.push(cur) + kcb_dep_positions(
            s,
            e,
        ));
    } else {
        assert(pre + (Seq::<int>::empty() + kcb_dep_positions(s, e)) =~= pre + kcb_dep_positions(
            s,
            e,
        ));
    }
}

} // verus!
