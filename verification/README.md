# qwikpage

The backend logic of QwikPage, a low-code page designer: projects, project groups, pages,
resources, settings, the decisions of the code export and the files of the Vue generator,
written in Verus with each function's behaviour stated in its contract and proved.

- `src/` is the verified library. Its modules:
  - `pagination`, `text`: paging of lists and the string operations the rest is stated with;
  - `project`, `group`, `page_store`, `page`: projects, project groups (with their grouped
    and sorted view), pages with their duplicate checks, and the merge of a page design;
  - `resource`, `local_storage`, `preferences`, `files`: resources, stored documents and the
    application settings;
  - `generator`, `naming`, `templates`, `helpers`, `api`: the options handed to a generator
    plugin and its answer, component names and routes, the rendered views, router and
    `package.json`, the skeleton files and the template helpers;
  - `stamp`: the current time and fresh ids.
- `app/` reads and writes the files on disk, holds the serde copies of the library's types,
  runs the front end's commands, loads generator plugins and writes the Vue generator's
  files (its templates are read from a directory).
- `tests/` runs the library on concrete values.
