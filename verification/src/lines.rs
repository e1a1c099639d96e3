use vstd::prelude::*;

verus! {

/// The byte that ends a line.  A line is complete only once this byte has
/// been observed; the bytes of an unfinished line stay in the assembler's
/// carry buffer.
pub const LINE_TERMINATOR: u8 = 10;

/// True when some byte of `s` is the line terminator.
pub open spec fn contains_terminator(s: Seq<u8>) -> bool {
    exists|i: int| 0 <= i < s.len() && s[i] == LINE_TERMINATOR
}

/// The complete lines produced when the bytes `input` arrive while the
/// unfinished fragment `carry` is already buffered: every terminator closes
/// the line consisting of the bytes buffered since the previous terminator,
/// with the terminator itself excluded.
pub open spec fn lines_after(carry: Seq<u8>, input: Seq<u8>) -> Seq<Seq<u8>>
    decreases input.len(),
{
    if input.len() == 0 {
        Seq::empty()
    } else if input[0] == LINE_TERMINATOR {
        seq![carry] + lines_after(Seq::empty(), input.drop_first())
    } else {
        lines_after(carry.push(input[0]), input.drop_first())
    }
}

/// The unfinished fragment left buffered after the bytes `input` arrive on
/// top of the fragment `carry`: the bytes seen after the last terminator.
pub open spec fn rest_after(carry: Seq<u8>, input: Seq<u8>) -> Seq<u8>
    decreases input.len(),
{
    if input.len() == 0 {
        carry
    } else if input[0] == LINE_TERMINATOR {
        rest_after(Seq::empty(), input.drop_first())
    } else {
        rest_after(carry.push(input[0]), input.drop_first())
    }
}

/// Splitting an arrival into two reads changes nothing: the lines of the
/// whole are the lines of the first part followed by the lines the second
/// part completes on top of the fragment the first part left behind.
pub proof fn lemma_lines_split(carry: Seq<u8>, a: Seq<u8>, b: Seq<u8>)
    ensures
        lines_after(carry, a + b) == lines_after(carry, a) + lines_after(rest_after(carry, a), b),
        rest_after(carry, a + b) == rest_after(rest_after(carry, a), b),
    decreases a.len(),
{
    if a.len() == 0 {
        assert(a + b =~= b);
        assert(lines_after(carry, a) + lines_after(carry, b) =~= lines_after(carry, b));
    } else {
        assert((a + b).drop_first() =~= a.drop_first() + b);
        assert((a + b)[0] == a[0]);
        if a[0] == LINE_TERMINATOR {
            lemma_lines_split(Seq::empty(), a.drop_first(), b);
            assert(seq![carry] + (lines_after(Seq::empty(), a.drop_first())
                + lines_after(rest_after(Seq::empty(), a.drop_first()), b))
                =~= (seq![carry] + lines_after(Seq::empty(), a.drop_first()))
                    + lines_after(rest_after(carry, a), b));
        } else {
            lemma_lines_split(carry.push(a[0]), a.drop_first(), b);
        }
    }
}

/// Input without a terminator completes no line; its bytes only lengthen
/// the buffered fragment.
pub proof fn lemma_no_terminator(carry: Seq<u8>, a: Seq<u8>)
    requires
        !contains_terminator(a),
    ensures
        lines_after(carry, a) == Seq::<Seq<u8>>::empty(),
        rest_after(carry, a) == carry + a,
    decreases a.len(),
{
    if a.len() == 0 {
        assert(carry + a =~= carry);
    } else {
        assert(a[0] != LINE_TERMINATOR);
        assert(!contains_terminator(a.drop_first())) by {
            assert forall|i: int| 0 <= i < a.drop_first().len()
                implies a.drop_first()[i] != LINE_TERMINATOR by {
                assert(a.drop_first()[i] == a[i + 1]);
            }
        }
        lemma_no_terminator(carry.push(a[0]), a.drop_first());
        assert(carry.push(a[0]) + a.drop_first() =~= carry + a);
    }
}

/// A terminator closes exactly the line made of the buffered fragment and
/// the terminator-free bytes before it, and empties the buffer.
pub proof fn lemma_one_line(carry: Seq<u8>, a: Seq<u8>)
    requires
        !contains_terminator(a),
    ensures
        lines_after(carry, a.push(LINE_TERMINATOR)) == seq![carry + a],
        rest_after(carry, a.push(LINE_TERMINATOR)) == Seq::<u8>::empty(),
{
    let t = seq![LINE_TERMINATOR];
    assert(a.push(LINE_TERMINATOR) =~= a + t);
    lemma_lines_split(carry, a, t);
    lemma_no_terminator(carry, a);
    assert(t.drop_first() =~= Seq::<u8>::empty());
    assert(t[0] == LINE_TERMINATOR);
    assert(lines_after(Seq::<u8>::empty(), Seq::<u8>::empty()) =~= Seq::<Seq<u8>>::empty());
    assert(lines_after(carry + a, t) =~= seq![carry + a] + lines_after(
        Seq::<u8>::empty(),
        Seq::<u8>::empty(),
    ));
    assert(seq![carry + a] + Seq::<Seq<u8>>::empty() =~= seq![carry + a]);
    assert(Seq::<Seq<u8>>::empty() + seq![carry + a] =~= seq![carry + a]);
    assert(rest_after(carry + a, t) == rest_after(Seq::<u8>::empty(), t.drop_first()));
    assert(rest_after(Seq::<u8>::empty(), Seq::<u8>::empty()) == Seq::<u8>::empty());
}

/// The buffered fragment never holds a terminator: what the assembler
/// retains is always a prefix of a line still being written.
pub proof fn lemma_rest_no_terminator(carry: Seq<u8>, a: Seq<u8>)
    requires
        !contains_terminator(carry),
    ensures
        !contains_terminator(rest_after(carry, a)),
    decreases a.len(),
{
    if a.len() == 0 {
    } else if a[0] == LINE_TERMINATOR {
        lemma_rest_no_terminator(Seq::empty(), a.drop_first());
    } else {
        assert(!contains_terminator(carry.push(a[0]))) by {
            assert forall|i: int| 0 <= i < carry.push(a[0]).len()
                implies carry.push(a[0])[i] != LINE_TERMINATOR by {
                if i < carry.len() {
                    assert(carry.push(a[0])[i] == carry[i]);
                }
            }
        }
        lemma_rest_no_terminator(carry.push(a[0]), a.drop_first());
    }
}

/// The lines produced when the reads `chunks` arrive one after the other,
/// starting from the buffered fragment `carry`.
pub open spec fn lines_of_reads(carry: Seq<u8>, chunks: Seq<Seq<u8>>) -> Seq<Seq<u8>>
    decreases chunks.len(),
{
    if chunks.len() == 0 {
        Seq::empty()
    } else {
        lines_after(carry, chunks[0])
            + lines_of_reads(rest_after(carry, chunks[0]), chunks.drop_first())
    }
}

/// The fragment left buffered after the reads `chunks` arrive one after the
/// other, starting from the buffered fragment `carry`.
pub open spec fn rest_of_reads(carry: Seq<u8>, chunks: Seq<Seq<u8>>) -> Seq<u8>
    decreases chunks.len(),
{
    if chunks.len() == 0 {
        carry
    } else {
        rest_of_reads(rest_after(carry, chunks[0]), chunks.drop_first())
    }
}

/// How writes are chunked across reads is immaterial: any sequence of reads
/// produces exactly the lines terminated in the concatenation of all the
/// bytes, in order, and leaves the same fragment buffered.
pub proof fn lemma_reads_chunking(carry: Seq<u8>, chunks: Seq<Seq<u8>>)
    ensures
        lines_of_reads(carry, chunks) == lines_after(carry, chunks.flatten()),
        rest_of_reads(carry, chunks) == rest_after(carry, chunks.flatten()),
    decreases chunks.len(),
{
    if chunks.len() == 0 {
        assert(chunks.flatten() =~= Seq::<u8>::empty());
        assert(lines_of_reads(carry, chunks) =~= lines_after(carry, chunks.flatten()));
    } else {
        assert(chunks.flatten() == chunks[0] + chunks.drop_first().flatten()) by {
            assert(chunks.first() == chunks[0]);
        }
        lemma_lines_split(carry, chunks[0], chunks.drop_first().flatten());
        lemma_reads_chunking(rest_after(carry, chunks[0]), chunks.drop_first());
    }
}

/// A single logical line, however its bytes are split across reads, comes
/// out as exactly one line holding the full content.
pub proof fn lemma_no_loss_across_partial_reads(content: Seq<u8>, chunks: Seq<Seq<u8>>)
    requires
        !contains_terminator(content),
        chunks.flatten() == content.push(LINE_TERMINATOR),
    ensures
        lines_of_reads(Seq::empty(), chunks) == seq![content],
        rest_of_reads(Seq::empty(), chunks) == Seq::<u8>::empty(),
{
    lemma_reads_chunking(Seq::empty(), chunks);
    lemma_one_line(Seq::empty(), content);
    assert(Seq::<u8>::empty() + content =~= content);
}

/// The bytes that a sequence of emitted lines stood for: each line followed
/// by the terminator that closed it.
pub open spec fn rejoin(lines: Seq<Seq<u8>>) -> Seq<u8>
    decreases lines.len(),
{
    if lines.len() == 0 {
        Seq::empty()
    } else {
        lines[0].push(LINE_TERMINATOR) + rejoin(lines.drop_first())
    }
}

/// Every byte is accounted for exactly once: the emitted lines with their
/// terminators restored, followed by the buffered fragment, are exactly the
/// buffered fragment and the input — nothing skipped, nothing doubled.
pub proof fn lemma_every_byte_accounted(carry: Seq<u8>, input: Seq<u8>)
    ensures
        rejoin(lines_after(carry, input)) + rest_after(carry, input) == carry + input,
    decreases input.len(),
{
    if input.len() == 0 {
        assert(rejoin(lines_after(carry, input)) + rest_after(carry, input) =~= carry + input);
    } else if input[0] == LINE_TERMINATOR {
        lemma_every_byte_accounted(Seq::empty(), input.drop_first());
        let tail_lines = lines_after(Seq::empty(), input.drop_first());
        assert((seq![carry] + tail_lines).drop_first() =~= tail_lines);
        assert((seq![carry] + tail_lines)[0] == carry);
        assert(Seq::<u8>::empty() + input.drop_first() =~= input.drop_first());
        assert(carry.push(LINE_TERMINATOR) + (rejoin(tail_lines) + rest_after(
            Seq::empty(),
            input.drop_first(),
        )) =~= (carry.push(LINE_TERMINATOR) + rejoin(tail_lines)) + rest_after(
            Seq::empty(),
            input.drop_first(),
        ));
        assert(carry.push(LINE_TERMINATOR) + input.drop_first() =~= carry + input);
    } else {
        lemma_every_byte_accounted(carry.push(input[0]), input.drop_first());
        assert(carry.push(input[0]) + input.drop_first() =~= carry + input);
    }
}

/// Feeds `input` to the assembler: appends the bytes to the buffered
/// fragment in `carry`, removes every complete line from the buffer, and
/// returns those lines in the order their terminators appear.
pub fn extract_lines(carry: &mut Vec<u8>, input: &[u8]) -> (lines: Vec<Vec<u8>>)
    ensures
        lines.deep_view() == lines_after(old(carry)@, input@),
        final(carry)@ == rest_after(old(carry)@, input@),
{
    let ghost orig_carry: Seq<u8> = carry@;
    let mut lines: Vec<Vec<u8>> = Vec::new();
    let mut i: usize = 0;
    proof {
        assert(input@.subrange(0, input@.len() as int) =~= input@);
        assert(lines.deep_view() =~~= Seq::<Seq<u8>>::empty());
        assert(Seq::<Seq<u8>>::empty() + lines_after(carry@, input@)
            =~= lines_after(carry@, input@));
    }
    while i < input.len()
        invariant
            i <= input.len(),
            lines.deep_view() + lines_after(carry@, input@.subrange(i as int, input@.len() as int))
                == lines_after(orig_carry, input@),
            rest_after(carry@, input@.subrange(i as int, input@.len() as int))
                == rest_after(orig_carry, input@),
        decreases input.len() - i,
    {
        let ghost pre_lines = lines.deep_view();
        let ghost pre_carry = carry@;
        let ghost suffix = input@.subrange(i as int, input@.len() as int);
        proof {
            assert(suffix.drop_first() =~= input@.subrange(i as int + 1, input@.len() as int));
            assert(suffix[0] == input@[i as int]);
        }
        let b = input[i];
        if b == LINE_TERMINATOR {
            let mut done: Vec<u8> = Vec::new();
            core::mem::swap(carry, &mut done);
            lines.push(done);
            proof {
                assert(lines.deep_view() =~~= pre_lines.push(pre_carry));
                assert(pre_lines.push(pre_carry) + lines_after(
                    carry@,
                    input@.subrange(i as int + 1, input@.len() as int),
                ) =~= pre_lines + lines_after(pre_carry, suffix));
            }
        } else {
            carry.push(b);
        }
        i = i + 1;
    }
    proof {
        assert(input@.subrange(input@.len() as int, input@.len() as int) =~= Seq::<u8>::empty());
        assert(lines.deep_view() + Seq::<Seq<u8>>::empty() =~= lines.deep_view());
    }
    lines
}

} // verus!
