# webdev_tools

The verified core of a browser developer-tools suite: a REST client and a
file-sharing page. `src/` holds the logic with its contracts, checked by
Verus; `app/` holds the browser glue (local storage, cookies, the DOM walk
over head links, and the JSON forms of the exchanged data).

Layout of `src/`:

- `text`, `split`, `decimal`: character-level text operations, splitting and
  joining, and decimal numbers, with the laws that reading undoes writing.
- `local_store`: the browser's local store as a map from keys to values.
- `model`: requests, responses and shared-file descriptions.
- `rest_client::model`: the edited request (headers, form body, body kind),
  the shown result and the saved response.
- `rest_client::util`: store keys and the stored request lists, cURL command
  building, URL operations, link rewriting for the HTML preview, cookies.
- `rest_client::ui` and the panels beside it: what each panel computes and
  what each explorer and project-selector action does to the lists and the
  store.
- `share_file`: upload targets, links to shared files, QR codes, and how a
  shared file is shown.
