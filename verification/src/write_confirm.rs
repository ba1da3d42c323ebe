//! The confirmation asked for before a statement that writes is run: what
//! it shows of the statement, and what its two buttons answer.
use crate::chars::{
    char_utf8_width, lemma_utf8_len_push, str_chars, str_to_uppercase, uppercase, utf8_len,
};
use crate::text_input::{index_at_byte, lemma_index_at_byte, lemma_utf8_len_take_strict};
use vstd::prelude::*;

verus! {

/// How many bytes of the statement the dialog shows before cutting it off.
pub const PREVIEW_BYTES: usize = 100;

/// The dialog's answer.
#[derive(Debug, Clone)]
pub enum WriteConfirmEvent {
    /// Run the statement anyway; carries the statement.
    Confirmed(String),
    Cancelled,
}

/// What the dialog shows of `sql`: all of it when it is at most
/// `PREVIEW_BYTES` bytes long, else the chars in its first `PREVIEW_BYTES`
/// bytes followed by `...`.
pub open spec fn preview_of(sql: Seq<char>) -> Seq<char> {
    if utf8_len(sql) <= PREVIEW_BYTES {
        sql
    } else {
        match index_at_byte(sql, PREVIEW_BYTES as nat) {
            Some(k) => sql.take(k) + seq!['.', '.', '.'],
            None => sql,
        }
    }
}

/// The dialog that asks before a write: the statement and how it was classified.
pub struct WriteConfirmModal {
    sql: String,
    classification: String,
}

impl WriteConfirmModal {
    pub closed spec fn sql_view(&self) -> Seq<char> {
        self.sql@
    }

    pub closed spec fn classification_view(&self) -> Seq<char> {
        self.classification@
    }

    pub fn new(sql: String, classification: String) -> (m: Self)
        ensures
            m.sql_view() == sql@,
            m.classification_view() == classification@,
    {
        WriteConfirmModal { sql, classification }
    }

    /// The statement to be confirmed.
    pub fn sql(&self) -> (s: String)
        ensures
            s@ == self.sql_view(),
    {
        self.sql.clone()
    }

    /// How the statement was classified.
    pub fn classification(&self) -> (s: String)
        ensures
            s@ == self.classification_view(),
    {
        self.classification.clone()
    }

    /// Whether the preview can cut the statement between two chars: it is at
    /// most `PREVIEW_BYTES` bytes long, or a char ends exactly there.
    pub fn preview_cut_is_clean(&self) -> (b: bool)
        ensures
            b == (utf8_len(self.sql_view()) <= PREVIEW_BYTES || index_at_byte(
                self.sql_view(),
                PREVIEW_BYTES as nat,
            ) is Some),
    {
        let (k, bytes) = self.prefix_scan();
        proof {
            self.lemma_scan_result(k as int, bytes as int);
        }
        bytes <= PREVIEW_BYTES
    }

    /// The shortest prefix of the statement that reaches `PREVIEW_BYTES`
    /// bytes (or the whole statement): its char count and its byte length.
    fn prefix_scan(&self) -> (r: (usize, usize))
        ensures
            r.0 <= self.sql@.len(),
            r.1 == utf8_len(self.sql@.take(r.0 as int)),
            r.1 < PREVIEW_BYTES ==> r.0 == self.sql@.len(),
            r.0 > 0 ==> utf8_len(self.sql@.take(r.0 - 1)) < PREVIEW_BYTES,
    {
        let chars = str_chars(self.sql.as_str());
        let mut k: usize = 0;
        let mut bytes: usize = 0;
        proof {
            assert(chars@.take(0) =~= Seq::<char>::empty());
        }
        while k < chars.len() && bytes < PREVIEW_BYTES
            invariant
                k <= chars@.len(),
                chars@ == self.sql@,
                bytes == utf8_len(chars@.take(k as int)),
                bytes < PREVIEW_BYTES + 4,
                k > 0 ==> utf8_len(chars@.take(k - 1)) < PREVIEW_BYTES,
            decreases chars@.len() - k,
        {
            let w = char_utf8_width(chars[k]);
            proof {
                assert(chars@.take(k + 1) =~= chars@.take(k as int).push(chars@[k as int]));
                lemma_utf8_len_push(chars@.take(k as int), chars@[k as int]);
                assert(chars@.take(k + 1 - 1) =~= chars@.take(k as int));
            }
            bytes = bytes + w;
            k = k + 1;
        }
        (k, bytes)
    }

    /// What the scan tells of the statement's length and of the cut.
    proof fn lemma_scan_result(&self, k: int, bytes: int)
        requires
            0 <= k <= self.sql@.len(),
            bytes == utf8_len(self.sql@.take(k)),
            bytes < PREVIEW_BYTES ==> k == self.sql@.len(),
            k > 0 ==> utf8_len(self.sql@.take(k - 1)) < PREVIEW_BYTES,
        ensures
            utf8_len(self.sql@) <= PREVIEW_BYTES <==> (bytes <= PREVIEW_BYTES && (bytes
                < PREVIEW_BYTES || k == self.sql@.len())),
            bytes == PREVIEW_BYTES ==> index_at_byte(self.sql@, PREVIEW_BYTES as nat) == Some(k),
            bytes > PREVIEW_BYTES ==> index_at_byte(self.sql@, PREVIEW_BYTES as nat) is None,
            utf8_len(self.sql@) >= bytes,
    {
        let s = self.sql@;
        assert(s.take(s.len() as int) =~= s);
        if k < s.len() {
            lemma_utf8_len_take_strict(s, k, s.len() as int);
        }
        if bytes == PREVIEW_BYTES {
            lemma_index_at_byte(s, PREVIEW_BYTES as nat, k);
        }
        if bytes > PREVIEW_BYTES {
            if index_at_byte(s, PREVIEW_BYTES as nat) is Some {
                let j = choose|j: int| 0 <= j <= s.len() && utf8_len(s.take(j)) == PREVIEW_BYTES;
                if j < k - 1 {
                    lemma_utf8_len_take_strict(s, j, k - 1);
                } else if j > k - 1 && j < k {
                } else if j >= k {
                    if j > k {
                        lemma_utf8_len_take_strict(s, k, j);
                    }
                }
            }
        }
    }

    /// What the dialog shows of the statement (see `preview_of`). The cut
    /// must fall between two chars.
    pub fn sql_preview(&self) -> (r: String)
        requires
            utf8_len(self.sql_view()) <= PREVIEW_BYTES || index_at_byte(
                self.sql_view(),
                PREVIEW_BYTES as nat,
            ) is Some,
        ensures
            r@ == preview_of(self.sql_view()),
    {
        let (k, bytes) = self.prefix_scan();
        proof {
            self.lemma_scan_result(k as int, bytes as int);
        }
        if bytes < PREVIEW_BYTES || (bytes == PREVIEW_BYTES && k == self.sql.as_str().unicode_len()) {
            self.sql.clone()
        } else {
            let chars = str_chars(self.sql.as_str());
            let mut out: Vec<char> = Vec::new();
            let mut i: usize = 0;
            while i < k
                invariant
                    i <= k <= chars@.len(),
                    chars@ == self.sql@,
                    out@ == chars@.take(i as int),
                decreases k - i,
            {
                out.push(chars[i]);
                proof {
                    assert(out@ =~= chars@.take(i + 1));
                }
                i += 1;
            }
            out.push('.');
            out.push('.');
            out.push('.');
            proof {
                assert(out@ =~= self.sql@.take(k as int) + seq!['.', '.', '.']);
            }
            crate::chars::string_from_chars(out.as_slice())
        }
    }

    /// The dialog's header: the classification in capitals, then
    /// ` on PRODUCTION`.
    pub fn header(&self) -> (s: String)
        ensures
            s@ == uppercase(self.classification_view()) + " on PRODUCTION"@,
    {
        let mut s = str_to_uppercase(self.classification.as_str());
        s.append(" on PRODUCTION");
        s
    }

    /// The Confirm button: run the statement.
    pub fn confirm(&self) -> (e: WriteConfirmEvent)
        ensures
            e matches WriteConfirmEvent::Confirmed(s) && s@ == self.sql_view(),
    {
        WriteConfirmEvent::Confirmed(self.sql.clone())
    }

    /// The Cancel button.
    pub fn cancel(&self) -> (e: WriteConfirmEvent)
        ensures
            e is Cancelled,
    {
        WriteConfirmEvent::Cancelled
    }
}

} // verus!
