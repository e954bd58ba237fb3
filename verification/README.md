# schoolcbb

The request-handling rules of the SchoolCBB API gateway and the decision logic of its
web client, written in Verus and proved against their specifications.

- `src/` is the verified library. The gateway part decides where a proxied request goes
  (`gateway`), which headers it reads (`headers`, `cookie`) and what the GraphQL
  resolvers ask and return (`graphql`). The client part holds what the pages compute:
  page routes and login (`pages`, `client`), forms and the bodies they send (`forms`,
  `academic_years`, `complaints`, `leave`, `employees`, `portal`), the role and plan
  editors (`roles`, `plans`), the CSV importer (`csv`), custom fields, the pipeline boards
  (`kanban`), attendance, reports and the curriculum search. JSON values are modelled by
  `json::Json`, text operations by `text`.
- `tests/` runs the library on concrete values.
- `app/` is the gateway program (HTTP proxying, GraphQL serving, the WebSocket relay)
  and the browser edge of the web client; it calls the library for every decision.
