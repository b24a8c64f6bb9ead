//! Queries over the stored transactions, and the token that carries one to
//! the storage engine.

use miden_objects::transaction::TransactionId;
use vstd::prelude::*;
use vstd::string::*;

use crate::codec::{is_digest_hex, is_hex_digit, transaction_id_text, transaction_id_to_text};
use crate::decimal::{append_u32, decimal_text, lemma_decimal_text_digits};

verus! {

/// Which transactions a scan returns.
#[derive(Debug)]
pub enum TransactionFilter {
    /// Every transaction.
    All,
    /// The transactions that are not committed yet.
    Uncomitted,
    /// The transactions with these identifiers.
    Ids(Vec<TransactionId>),
    /// The pending transactions that expired before the block of this height.
    ExpiredBefore(u32),
}

/// The texts joined with one comma between each two neighbours.
pub open spec fn joined(texts: Seq<Seq<char>>) -> Seq<char>
    decreases texts.len(),
{
    if texts.len() == 0 {
        Seq::empty()
    } else if texts.len() == 1 {
        texts[0]
    } else {
        joined(texts.drop_last()) + seq![','] + texts.last()
    }
}

/// The texts of the identifiers, in their order.
pub open spec fn id_texts(ids: Seq<TransactionId>) -> Seq<Seq<char>> {
    ids.map_values(|id: TransactionId| transaction_id_text(id))
}

/// Whether each of the texts has a character and none of them a comma.
pub open spec fn separable(texts: Seq<Seq<char>>) -> bool {
    forall|i: int|
        0 <= i < texts.len() ==> (#[trigger] texts[i]).len() > 0 && !texts[i].contains(',')
}

/// A digest in hexadecimal has characters and no comma among them.
pub proof fn lemma_digest_hex_has_no_comma(text: Seq<char>)
    requires
        is_digest_hex(text),
    ensures
        text.len() > 0,
        !text.contains(','),
{
    if text.contains(',') {
        let i = choose|i: int| 0 <= i < text.len() && text[i] == ',';
        if i >= 2 {
            assert(is_hex_digit(text[i]));
        }
    }
}

impl TransactionFilter {
    /// The token that stands for the filter. The spelling of each tag is
    /// what the storage engine reads.
    pub open spec fn token(&self) -> Seq<char> {
        match self {
            TransactionFilter::All => "All"@,
            TransactionFilter::Uncomitted => "Uncomitted"@,
            TransactionFilter::Ids(ids) => "Ids:"@ + joined(id_texts(ids@)),
            TransactionFilter::ExpiredBefore(height) => "ExpiredPending:"@ + decimal_text(
                *height as nat,
            ),
        }
    }

    /// Encodes the filter as the token that the storage engine's scan takes.
    pub fn encode(&self) -> (token: String)
        ensures
            token@ == self.token(),
            self matches TransactionFilter::Ids(ids) ==> separable(id_texts(ids@)),
    {
        match self {
            TransactionFilter::All => String::from_str("All"),
            TransactionFilter::Uncomitted => String::from_str("Uncomitted"),
            TransactionFilter::Ids(ids) => {
                let mut token = String::from_str("Ids:");
                let ghost texts = id_texts(ids@);
                let mut i: usize = 0;
                assert(texts.take(0) =~= Seq::<Seq<char>>::empty());
                assert(token@ =~= "Ids:"@ + joined(texts.take(0)));
                while i < ids.len()
                    invariant
                        i <= ids@.len(),
                        texts == id_texts(ids@),
                        token@ == "Ids:"@ + joined(texts.take(i as int)),
                        separable(texts.take(i as int)),
                    decreases ids@.len() - i,
                {
                    let ghost before = token@;
                    if i > 0 {
                        token.append(",");
                    }
                    let text = transaction_id_to_text(&ids[i]);
                    token.append(text.as_str());
                    proof {
                        reveal_strlit(",");
                        let shorter = texts.take(i as int);
                        let longer = texts.take(i + 1);
                        assert(longer.drop_last() =~= shorter);
                        assert(longer.last() == text@);
                        assert(separable(longer)) by {
                            lemma_digest_hex_has_no_comma(text@);
                            assert forall|j: int| 0 <= j < i implies #[trigger] longer[j]
                                == shorter[j] by {}
                        }
                        assert(","@ =~= seq![',']);
                        assert(token@ =~= "Ids:"@ + joined(longer));
                    }
                    i = i + 1;
                }
                assert(texts.take(i as int) =~= texts);
                token
            },
            TransactionFilter::ExpiredBefore(height) => {
                let mut token = String::from_str("ExpiredPending:");
                append_u32(&mut token, *height);
                token
            },
        }
    }
}

/// Where the text at index `i` begins in the joined texts.
pub open spec fn position(texts: Seq<Seq<char>>, i: int) -> int
    decreases i,
{
    if i <= 0 {
        0
    } else {
        position(texts, i - 1) + texts[i - 1].len() + 1
    }
}

/// Where a text begins depends on the texts before it alone.
proof fn lemma_position_of_prefix(texts: Seq<Seq<char>>, i: int)
    requires
        0 <= i < texts.len(),
    ensures
        position(texts.drop_last(), i) == position(texts, i),
    decreases i,
{
    if i > 0 {
        lemma_position_of_prefix(texts, i - 1);
    }
}

/// The joined texts end where a further text's comma would stand.
proof fn lemma_joined_len(texts: Seq<Seq<char>>)
    requires
        texts.len() > 0,
    ensures
        joined(texts).len() + 1 == position(texts, texts.len() as int),
    decreases texts.len(),
{
    assert(position(texts, 0) == 0);
    if texts.len() > 1 {
        lemma_joined_len(texts.drop_last());
        lemma_position_of_prefix(texts, texts.len() - 1);
    }
}

/// Joining keeps each text whole and in its place: the text at index `i`
/// stands in the joined texts after the texts before it and their commas.
pub proof fn lemma_joined_holds_each(texts: Seq<Seq<char>>, i: int)
    requires
        0 <= i < texts.len(),
    ensures
        0 <= position(texts, i),
        position(texts, i) + texts[i].len() <= joined(texts).len(),
        joined(texts).subrange(position(texts, i), position(texts, i) + texts[i].len())
            == texts[i],
    decreases texts.len(),
{
    if texts.len() == 1 {
        assert(joined(texts).subrange(0, texts[0].len() as int) =~= texts[0]);
    } else {
        let head = texts.drop_last();
        lemma_joined_len(head);
        lemma_position_of_prefix(texts, texts.len() - 1);
        if i == texts.len() - 1 {
            assert(joined(texts).subrange(position(texts, i), position(texts, i) + texts[i].len())
                =~= texts[i]);
        } else {
            lemma_joined_holds_each(head, i);
            lemma_position_of_prefix(texts, i);
            assert(head[i] == texts[i]);
            assert(joined(texts).subrange(position(texts, i), position(texts, i) + texts[i].len())
                =~= joined(head).subrange(position(head, i), position(head, i) + head[i].len()));
        }
    }
}

/// A filter by identifiers keeps their order: in its token each identifier's
/// text stands whole, after the tag, the texts before it and their commas.
pub proof fn lemma_ids_keep_order(filter: TransactionFilter, i: int)
    requires
        filter is Ids,
        0 <= i < filter->Ids_0@.len(),
    ensures
        ({
            let texts = id_texts(filter->Ids_0@);
            let start = 4 + position(texts, i);
            &&& texts[i] == transaction_id_text(filter->Ids_0@[i])
            &&& 4 <= start
            &&& start + texts[i].len() <= filter.token().len()
            &&& filter.token().subrange(start, start + texts[i].len()) == texts[i]
        }),
{
    reveal_strlit("Ids:");
    let texts = id_texts(filter->Ids_0@);
    let start = 4 + position(texts, i);
    lemma_joined_holds_each(texts, i);
    assert(filter.token().subrange(start, start + texts[i].len()) =~= joined(texts).subrange(
        position(texts, i),
        position(texts, i) + texts[i].len(),
    ));
}

/// The token of a filter by two identifiers is the tag, the first
/// identifier's text, a comma and the second identifier's text.
pub proof fn lemma_two_ids(filter: TransactionFilter, first: TransactionId, second: TransactionId)
    requires
        filter is Ids,
        filter->Ids_0@ == seq![first, second],
    ensures
        filter.token() == "Ids:"@ + transaction_id_text(first) + seq![','] + transaction_id_text(
            second,
        ),
{
    let texts = id_texts(filter->Ids_0@);
    assert(texts.drop_last().len() == 1);
    assert(texts.drop_last()[0] == transaction_id_text(first));
    assert(texts.last() == transaction_id_text(second));
    assert(joined(texts.drop_last()) == transaction_id_text(first));
    assert(joined(texts) == transaction_id_text(first) + seq![','] + transaction_id_text(second));
    assert(filter.token() =~= "Ids:"@ + transaction_id_text(first) + seq![',']
        + transaction_id_text(second));
}

/// Joined texts without commas of their own hold a comma exactly where two
/// texts meet: with one text there is none, and with more the last text
/// follows the last comma.
proof fn lemma_joined_commas(texts: Seq<Seq<char>>)
    requires
        separable(texts),
        texts.len() > 0,
    ensures
        joined(texts).len() >= texts.last().len(),
        texts.len() == 1 ==> !joined(texts).contains(','),
        texts.len() > 1 ==> joined(texts).len() > texts.last().len() && joined(texts)[joined(
            texts,
        ).len() - texts.last().len() - 1] == ',',
        forall|j: int|
            joined(texts).len() - texts.last().len() <= j < joined(texts).len() ==> joined(
                texts,
            )[j] != ',',
{
    let last = texts.last();
    let all = joined(texts);
    assert(last == texts[texts.len() - 1]);
    assert forall|j: int| all.len() - last.len() <= j < all.len() implies all[j] != ',' by {
        let k = j - (all.len() - last.len());
        assert(all[j] == last[k]);
        if last[k] == ',' {
            assert(last.contains(','));
        }
    }
    if texts.len() == 1 {
        if all.contains(',') {
            let j = choose|j: int| 0 <= j < all.len() && all[j] == ',';
            assert(all[j] != ',');
        }
    }
}

/// Texts that have no commas of their own can be read back from where they
/// are joined: two runs of such texts that join to one text are one run.
pub proof fn lemma_joined_tells_texts(a: Seq<Seq<char>>, b: Seq<Seq<char>>)
    requires
        separable(a),
        separable(b),
        joined(a) == joined(b),
    ensures
        a == b,
    decreases a.len(),
{
    if a.len() == 0 || b.len() == 0 {
        if a.len() > 0 {
            lemma_joined_commas(a);
            assert(a.last() == a[a.len() - 1]);
        }
        if b.len() > 0 {
            lemma_joined_commas(b);
            assert(b.last() == b[b.len() - 1]);
        }
        assert(a =~= b);
    } else {
        lemma_joined_commas(a);
        lemma_joined_commas(b);
        let all = joined(a);
        let (x, y) = (a.last(), b.last());
        if a.len() == 1 && b.len() == 1 {
            assert(a =~= b);
        } else if a.len() == 1 || b.len() == 1 {
            let j = if a.len() == 1 {
                all.len() - y.len() - 1
            } else {
                all.len() - x.len() - 1
            };
            assert(all[j] == ',');
            assert(all.contains(','));
        } else {
            if x.len() < y.len() {
                assert(all[all.len() - x.len() - 1] == ',');
            } else if y.len() < x.len() {
                assert(all[all.len() - y.len() - 1] == ',');
            }
            assert(x.len() == y.len());
            let cut = all.len() - x.len() - 1;
            assert(x =~= all.subrange(cut + 1, all.len() as int));
            assert(y =~= all.subrange(cut + 1, all.len() as int));
            assert(joined(a.drop_last()) =~= all.subrange(0, cut));
            assert(joined(b.drop_last()) =~= all.subrange(0, cut));
            let (head_a, head_b) = (a.drop_last(), b.drop_last());
            assert forall|i: int| 0 <= i < head_a.len() implies (#[trigger] head_a[i]).len() > 0
                && !head_a[i].contains(',') by {
                assert(head_a[i] == a[i]);
            }
            assert forall|i: int| 0 <= i < head_b.len() implies (#[trigger] head_b[i]).len() > 0
                && !head_b[i].contains(',') by {
                assert(head_b[i] == b[i]);
            }
            lemma_joined_tells_texts(head_a, head_b);
            assert(a =~= head_a.push(x));
            assert(b =~= head_b.push(y));
        }
    }
}

/// Each kind of filter has a token that begins with a letter of its own.
proof fn lemma_first_letter(f: TransactionFilter)
    ensures
        f.token().len() > 0,
        f is All ==> f.token()[0] == 'A',
        f is Uncomitted ==> f.token()[0] == 'U',
        f is Ids ==> f.token()[0] == 'I' && f.token().len() == 4 + joined(
            id_texts(f->Ids_0@),
        ).len(),
        f is ExpiredBefore ==> f.token()[0] == 'E' && f.token().len() == 15 + decimal_text(
            f->ExpiredBefore_0 as nat,
        ).len(),
{
    reveal_strlit("All");
    reveal_strlit("Uncomitted");
    reveal_strlit("Ids:");
    reveal_strlit("ExpiredPending:");
}

/// A token tells what was asked: two filters with one token are of one kind,
/// ask for the same height where they ask for one, and for identifiers with
/// the same texts in the same order where they ask for identifiers, as long
/// as each identifier's text has a character and none has a comma.
pub proof fn lemma_token_tells_filter(f: TransactionFilter, g: TransactionFilter)
    requires
        f.token() == g.token(),
    ensures
        f is All <==> g is All,
        f is Uncomitted <==> g is Uncomitted,
        f is Ids <==> g is Ids,
        f is ExpiredBefore <==> g is ExpiredBefore,
        f is ExpiredBefore ==> f->ExpiredBefore_0 == g->ExpiredBefore_0,
        f is Ids ==> joined(id_texts(f->Ids_0@)) == joined(id_texts(g->Ids_0@)),
        f is Ids && separable(id_texts(f->Ids_0@)) && separable(id_texts(g->Ids_0@)) ==> id_texts(
            f->Ids_0@,
        ) == id_texts(g->Ids_0@),
{
    reveal_strlit("Ids:");
    reveal_strlit("ExpiredPending:");
    lemma_first_letter(f);
    lemma_first_letter(g);
    if f is ExpiredBefore {
        let a = decimal_text(f->ExpiredBefore_0 as nat);
        let b = decimal_text(g->ExpiredBefore_0 as nat);
        assert forall|i: int| 0 <= i < a.len() implies a[i] == b[i] by {
            assert(f.token()[15 + i] == a[i]);
            assert(g.token()[15 + i] == b[i]);
        }
        assert(a =~= b);
        lemma_decimal_text_digits(f->ExpiredBefore_0 as nat);
        lemma_decimal_text_digits(g->ExpiredBefore_0 as nat);
    }
    if f is Ids {
        let a = joined(id_texts(f->Ids_0@));
        let b = joined(id_texts(g->Ids_0@));
        assert forall|i: int| 0 <= i < a.len() implies a[i] == b[i] by {
            assert(f.token()[4 + i] == a[i]);
            assert(g.token()[4 + i] == b[i]);
        }
        assert(a =~= b);
        if separable(id_texts(f->Ids_0@)) && separable(id_texts(g->Ids_0@)) {
            lemma_joined_tells_texts(id_texts(f->Ids_0@), id_texts(g->Ids_0@));
        }
    }
}

} // verus!
