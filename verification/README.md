# ubpa_hermes

An applicant portal: applicants upload PDF documents with their e-mail
address and receive a token; admins see a dashboard of applicants and change
or remove them; once a day fresh applications become old.

- `src/` is the verified library (Verus): e-mail format checks, upload
  validation and the files it stores, the answer pages, the applicant states
  and how admins change them, the dashboard built from the applicant rows, the
  daily state sweep, and the composition of notice e-mails. Calls into `infer`,
  `chrono`, `uuid` and `lettre` stand behind small trusted wrappers; each
  one's doc comment names the outside call and says what its clauses claim
  and what, if anything, is trusted without a clause.
- `app/` is the web server (actix-web, sqlx/SQLite, askama pages, SMTP
  sending); it reads requests and the database, asks the library what to do,
  and carries it out.
- `tests/` runs the library on concrete inputs.

`config.json` holds the sender's account and the subject and text of each
notice: `email`, `password`, `submit_subject`, `submit`, `removed_subject`,
`removed`, `changed_state_subject`, `changed_state`.
