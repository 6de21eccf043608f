//! One-shot pod list for runs that do not follow (no watch stream is opened).

use crate::discovery::pod::Pod;
use crate::runtime::config::RunError;
use crate::text;
use vstd::prelude::*;

verus! {

/// How many pages a list may have.
pub const MAX_LIST_PAGES: u64 = 1000;

/// A list that is read page by page.
pub struct PodPages {
    pods: Vec<Pod>,
    pages: u64,
}

/// What to do after a page.
pub enum PageStep {
    /// Ask for the page that this token continues with.
    Next(PodPages, String),
    /// The list is complete.
    Done(Vec<Pod>),
    /// The list has too many pages.
    Failed(RunError),
}

/// What is said of a list with too many pages.
pub open spec fn too_many_pages() -> Seq<char> {
    "pod list pagination exceeded "@ + text::decimal(MAX_LIST_PAGES as nat) + " pages"@
}

impl PodPages {
    /// The pods that were read so far.
    pub closed spec fn read(&self) -> Seq<Pod> {
        self.pods@
    }

    /// How many pages were read so far.
    pub closed spec fn pages(&self) -> int {
        self.pages as int
    }

    /// There is room for another page.
    pub open spec fn wf(&self) -> bool {
        0 <= self.pages() < MAX_LIST_PAGES
    }

    /// A list of which nothing was read yet.
    pub fn new() -> (list: Self)
        ensures
            list.wf(),
            list.read().len() == 0,
            list.pages() == 0,
    {
        PodPages { pods: Vec::new(), pages: 0 }
    }

    /// Takes a page. Without a token, or with an empty one, it is the last.
    pub fn add_page(self, items: Vec<Pod>, continue_token: Option<String>) -> (step: PageStep)
        requires
            self.wf(),
        ensures
            match continue_token {
                Some(token) if token@.len() > 0 => if self.pages() + 1 < MAX_LIST_PAGES {
                    &&& step matches PageStep::Next(list, next)
                    &&& list.wf()
                    &&& list.read() == self.read() + items@
                    &&& list.pages() == self.pages() + 1
                    &&& next@ == token@
                } else {
                    &&& step matches PageStep::Failed(RunError::Other(reason))
                    &&& reason@ == too_many_pages()
                },
                _ => step matches PageStep::Done(pods) && pods@ == self.read() + items@,
            },
    {
        let mut list = self;
        let mut items = items;
        list.pods.append(&mut items);
        match continue_token {
            Some(token) => {
                if token.as_str().is_empty() {
                    return PageStep::Done(list.pods);
                }
                if list.pages + 1 >= MAX_LIST_PAGES {
                    let most = text::to_decimal(MAX_LIST_PAGES);
                    return PageStep::Failed(
                        RunError::Other(
                            "pod list pagination exceeded ".to_owned().concat(most.as_str()).concat(
                                " pages",
                            ),
                        ),
                    );
                }
                list.pages = list.pages + 1;
                PageStep::Next(list, token)
            },
            None => PageStep::Done(list.pods),
        }
    }
}

/// A list may have a thousand pages, which is what is said of a longer one.
pub proof fn law_thousand_pages()
    ensures
        MAX_LIST_PAGES == 1000,
        too_many_pages() == "pod list pagination exceeded "@ + seq!['1', '0', '0', '0'] + " pages"@,
{
    reveal_with_fuel(text::decimal, 5);
    assert(text::decimal(1000) =~= seq!['1', '0', '0', '0']);
}

} // verus!
