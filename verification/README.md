# instagrab

A desktop app for pulling images and videos out of posts, single ones or a whole
profile, at the highest resolution on offer. The library in `src/` holds all of
its rules and is verified with Verus; the program in `app/` is ordinary Rust
around it.

## How it works

The same media can be had through several channels of differing quality. The
private web API gives clean structure but caps stills at 720 pixels in width.
The page of a post quotes the full-size stills but has no usable structure. So
structure is taken from the API and resolution from the page, and the two are
matched on the number of the asset that stands in every CDN URL.

- The size token in a CDN URL is a bounding box, not a dimension. It ranks copies
  of a still, but the label of an item comes from the original's dimensions.
- An untagged URL is the original, so the absence of a token ranks highest.
- Codes of up to 11 characters decode to a media id; longer share codes do not,
  and their media id is read from the page.

## The library

| Module | What it does |
|---|---|
| `text`, `number`, `calendar`, `encode` | text, decimal notation, dates, percent-encoding and folder names |
| `pattern` | the patterns that text is searched for, and what a match of each is |
| `json` | JSON documents as trees |
| `error` | what can go wrong, and the sentence that tells it |
| `shortcode`, `username` | what a user pastes, and media ids |
| `cdn` | assets, ranks of copies, and the best URL of each asset on a page |
| `timeline`, `search`, `profile` | a profile's grid, search hits, post counts |
| `reply` | telling a document from a failure |
| `post` | one post with its media, and the text saved beside them |
| `cookie`, `client` | cookie jars and the requests of a session |
| `login`, `accounts` | watching a login, and the stored accounts |
| `scan`, `download` | gathering a profile page by page, and the files of a post |

Contracts are stated over character sequences and plain models of each type (a
type `T` with a view has a `TView` beside it). Functions called `law_…` state what
holds of several functions together.

Regular expressions are matched by the `regex` crate and JSON is parsed and
quoted by `serde_json`. What the library takes for granted of these two, and of a
few functions of the standard library, is stated in the contracts of the
functions marked `external_body` and of the `assume_specification` items.

## The program

`app/` sends the requests that the library shapes, hands the replies back, keeps
the account file in the system's configuration directory, and shows a login
window. The account file holds live session cookies in plain text.
