use crate::store::{has_id, ids_distinct, items_kept, Store};
use crate::toots::{
    decoded_entities, has_two_quotes, lemma_no_quotes_no_content, normalized, rendered_text, Toot,
    TootIn, TootInView, TootView, WRAP_WIDTH,
};
use vstd::prelude::*;

verus! {

/// Default recency window: five days, in milliseconds.
pub const RECENCY_WINDOW_MS: i64 = 432_000_000;

/// Default minimum length of a post body, in characters; a body must be longer.
pub const MIN_CONTENT_LEN: usize = 10;

/// Which posts an ingestion cycle keeps and how it normalizes them.
#[derive(Clone, Copy, Debug)]
pub struct IngestPolicy {
    /// A post must be younger than this many milliseconds.
    pub window_ms: i64,
    /// A post body must have more characters than this.
    pub min_len: usize,
    /// Keep only the text between the first two double quotes of a post.
    pub extract_quoted: bool,
}

/// A post passes the recency and length filters at time `now`.
pub open spec fn admitted(p: TootInView, now: i64, policy: IngestPolicy) -> bool {
    &&& p.created_at > now - policy.window_ms
    &&& p.content.len() > policy.min_len
}

/// The items after one post is offered to the store.
pub open spec fn ingest_step(
    items: Seq<TootView>,
    p: TootInView,
    now: i64,
    policy: IngestPolicy,
) -> Seq<TootView> {
    if admitted(p, now, policy) && normalized(p.content, policy.extract_quoted) is Some
        && !has_id(items, p.id) {
        items.push(
            TootView {
                id: p.id,
                content: normalized(p.content, policy.extract_quoted)->0,
                created_at: p.created_at,
                served: false,
            },
        )
    } else {
        items
    }
}

/// The items after the posts are offered to the store in order.
pub open spec fn ingest_all(
    items: Seq<TootView>,
    posts: Seq<TootInView>,
    now: i64,
    policy: IngestPolicy,
) -> Seq<TootView>
    decreases posts.len(),
{
    if posts.len() == 0 {
        items
    } else {
        ingest_step(ingest_all(items, posts.drop_last(), now, policy), posts.last(), now, policy)
    }
}

/// The posts that pass the filters but that the normalizer rejects.
pub open spec fn rejected_count(posts: Seq<TootInView>, now: i64, policy: IngestPolicy) -> nat
    decreases posts.len(),
{
    if posts.len() == 0 {
        0
    } else {
        rejected_count(posts.drop_last(), now, policy) + if admitted(posts.last(), now, policy)
            && normalized(posts.last().content, policy.extract_quoted) is None {
            1nat
        } else {
            0nat
        }
    }
}

/// The values of a batch of posts.
pub open spec fn post_views(posts: Seq<TootIn>) -> Seq<TootInView> {
    posts.map_values(|p: TootIn| p@)
}

/// Every item that `new` holds beyond `old` comes from a post of `posts` that
/// passes the filters, with that post's id and creation time.
pub open spec fn new_items_admitted(
    old: Seq<TootView>,
    new: Seq<TootView>,
    posts: Seq<TootInView>,
    now: i64,
    policy: IngestPolicy,
) -> bool {
    forall|i: int|
        old.len() <= i < new.len() ==> exists|k: int|
            0 <= k < posts.len() && admitted(posts[k], now, policy) && posts[k].id == #[trigger] new[i].id
                && posts[k].created_at == new[i].created_at
}

/// Ingesting any batch of posts into items with distinct ids leaves the ids
/// distinct and every item already held as it was, so a post whose id is known
/// adds nothing, however many cycles see it.
pub proof fn lemma_ingest_ids_unique(
    items: Seq<TootView>,
    posts: Seq<TootInView>,
    now: i64,
    policy: IngestPolicy,
)
    requires
        ids_distinct(items),
    ensures
        ids_distinct(ingest_all(items, posts, now, policy)),
        items.len() <= ingest_all(items, posts, now, policy).len(),
        forall|i: int| 0 <= i < items.len() ==> #[trigger] ingest_all(items, posts, now, policy)[i] == items[i],
    decreases posts.len(),
{
    if posts.len() > 0 {
        lemma_ingest_ids_unique(items, posts.drop_last(), now, policy);
        let before = ingest_all(items, posts.drop_last(), now, policy);
        let after = ingest_all(items, posts, now, policy);
        assert(after == ingest_step(before, posts.last(), now, policy));
        if after != before {
            assert forall|i: int, j: int|
                0 <= i < after.len() && 0 <= j < after.len() && i != j implies after[i].id != after[j].id by {
                if i < before.len() && j < before.len() {
                } else if i < before.len() {
                    assert(after[i] == before[i]);
                } else {
                    assert(after[j] == before[j]);
                }
            }
        }
    }
}

/// With quote extraction on, a post whose rendered text holds fewer than two
/// double quotes adds no item, and where it passes the filters it is counted as
/// rejected.
pub proof fn lemma_unquoted_post_dropped(
    items: Seq<TootView>,
    p: TootInView,
    now: i64,
    policy: IngestPolicy,
)
    requires
        policy.extract_quoted,
        rendered_text(decoded_entities(p.content), WRAP_WIDTH) matches Some(t) && !has_two_quotes(t),
    ensures
        ingest_step(items, p, now, policy) == items,
        rejected_count(seq![p], now, policy) == if admitted(p, now, policy) {
            1nat
        } else {
            0nat
        },
{
    let t = rendered_text(decoded_entities(p.content), WRAP_WIDTH)->0;
    lemma_no_quotes_no_content(t);
    assert(seq![p].drop_last() =~= Seq::<TootInView>::empty());
    assert(rejected_count(Seq::<TootInView>::empty(), now, policy) == 0);
}

/// Runs one ingestion cycle at time `now` (milliseconds since the Unix epoch):
/// each post that is recent and long enough is normalized, and inserted unless
/// its id is known. Returns how many such posts the normalizer rejected.
pub fn ingest_cycle(store: &mut Store, posts: Vec<TootIn>, now: i64, policy: IngestPolicy) -> (r: usize)
    requires
        old(store).wf(),
    ensures
        final(store).wf(),
        final(store)@ == ingest_all(old(store)@, post_views(posts@), now, policy),
        r == rejected_count(post_views(posts@), now, policy),
        items_kept(old(store)@, final(store)@),
        new_items_admitted(old(store)@, final(store)@, post_views(posts@), now, policy),
{
    let ghost all = post_views(posts@);
    let ghost start = store@;
    let total = posts.len();
    let mut rest = posts;
    let mut rejected: usize = 0;
    let mut i: usize = 0;
    while rest.len() > 0
        invariant
            store.wf(),
            i + rest@.len() == all.len(),
            all.len() == total,
            post_views(rest@) == all.skip(i as int),
            store@ == ingest_all(start, all.take(i as int), now, policy),
            rejected == rejected_count(all.take(i as int), now, policy),
            rejected <= i,
            items_kept(start, store@),
            new_items_admitted(start, store@, all.take(i as int), now, policy),
        decreases rest.len(),
    {
        let ghost before = store@;
        let ghost p = all[i as int];
        proof {
            assert(all.take(i as int + 1).drop_last() =~= all.take(i as int));
            assert(post_views(rest@)[0] == p);
        }
        let ghost rest_before = rest@;
        let post = rest.remove(0);
        proof {
            assert forall|k: int| 0 <= k < rest@.len() implies post_views(rest@)[k] == all.skip(
                i as int + 1,
            )[k] by {
                assert(rest@[k] == rest_before[k + 1]);
                assert(post_views(rest_before)[k + 1] == all.skip(i as int)[k + 1]);
            }
            assert(post_views(rest@) =~= all.skip(i as int + 1));
        }
        let recent = (post.created_at as i128) > (now as i128) - (policy.window_ms as i128);
        let long = post.content.as_str().unicode_len() > policy.min_len;
        if recent && long {
            match Toot::try_from_toot_in(post, policy.extract_quoted) {
                Ok(t) => {
                    store.upsert_if_absent(t);
                },
                Err(_) => {
                    rejected += 1;
                },
            }
        }
        proof {
            let pre = all.take(i as int);
            let post_pre = all.take(i as int + 1);
            assert(post_pre.last() == p);
            assert forall|j: int| start.len() <= j < store@.len() implies exists|k: int|
                0 <= k < post_pre.len() && admitted(post_pre[k], now, policy) && post_pre[k].id
                    == #[trigger] store@[j].id && post_pre[k].created_at == store@[j].created_at by {
                if j < before.len() {
                    assert(store@[j] == before[j]);
                    let k = choose|k: int|
                        0 <= k < pre.len() && admitted(pre[k], now, policy) && pre[k].id == before[j].id
                            && pre[k].created_at == before[j].created_at;
                    assert(post_pre[k] == pre[k]);
                } else {
                    assert(post_pre[i as int] == p);
                }
            }
        }
        i += 1;
    }
    assert(all.take(i as int) =~= all);
    rejected
}

/// Relies on `chrono::Utc::now` and `DateTime::timestamp_millis`: the current
/// time in milliseconds since the Unix epoch. Nothing is known of its value.
#[verifier::external_body]
fn now_millis() -> (r: i64) {
    chrono::Utc::now().timestamp_millis()
}

/// Runs one ingestion cycle at the current time, as [`ingest_cycle`] does.
pub fn ingest_now(store: &mut Store, posts: Vec<TootIn>, policy: IngestPolicy) -> (r: usize)
    requires
        old(store).wf(),
    ensures
        final(store).wf(),
        exists|now: i64|
            final(store)@ == ingest_all(old(store)@, post_views(posts@), now, policy) && r
                == rejected_count(post_views(posts@), now, policy) && new_items_admitted(
                old(store)@,
                final(store)@,
                post_views(posts@),
                now,
                policy,
            ),
        items_kept(old(store)@, final(store)@),
{
    let now = now_millis();
    ingest_cycle(store, posts, now, policy)
}

} // verus!
